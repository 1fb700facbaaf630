# rak-basicstation

A LoRa Basics Station forwarder: it takes uplinks from a packet forwarder,
hands them to a LoRaWAN Network Server (LNS) over the Basics Station
WebSocket protocol, schedules the downlinks the LNS sends back, and keeps
its credentials up to date through CUPS.

## Layout

- `src/` — the library, verified with Verus:
  - `config` — configuration values, defaults, `$NAME` substitution;
  - `cups` — the update-info response reader, credential checksums, the
    token-mode credential blob, and what an update asks of the gateway;
  - `lns` — router discovery (ID6, URLs, responses), the router_config
    state and channel plan, uplink messages (`jreq`, `updf`, `propdf`),
    downlinks for classes A/B/C and `dnsched`, the context cache and xtime
    numbering, GPS time offset, and the connection state;
  - `backend::semtech_udp` — packet kinds, CRC filters, the pending
    downlinks and how a TX acknowledgement moves a downlink on;
  - `text`, `hexfmt` — text and hex helpers with their specifications.
- `tests/` — tests of the library.
- `app/` — the program around it: configuration files, JSON, WebSocket,
  HTTPS, UDP, timers.

Each public function states its result in `ensures`; the `law_*` proof
functions state properties that relate several operations (what a cache
lookup gives back of a store, how a downlink finds the uplink it answers,
that a framed CUPS response reads back its fields, and more).
