//! BasicStation downlinks (`dnmsg`, `dnsched`) to concentrator downlink
//! frames, and the `dntxed` confirmation.
use vstd::prelude::*;

use super::messages::{DownlinkMessage, DownlinkSchedule, ScheduleEntry};
use super::router_config::{dr_sf_bw, RouterConfigState};
use super::uplink::tdiv;
use super::{get_cached_context, is_mesh_context, mesh_context, ContextCache};
use crate::hexfmt::{hex_decodable, hex_decode, hex_decoded};
use vstd::string::StringSliceAdditionalSpecFns;
use vstd::utf8::encode_utf8;

verus! {

/// When a downlink is transmitted.
#[derive(Debug, Clone, Copy, PartialEq, Eq, Structural)]
pub enum Timing {
    /// This long after the uplink that the context belongs to.
    Delay { seconds: i64 },
    /// At this time since the GPS epoch.
    GpsEpoch { seconds: i64, nanos: i32 },
    /// As soon as possible.
    Immediately,
}

/// Transmission parameters of one downlink attempt. A spreading factor of 0
/// marks FSK, as in the DR table (the bandwidth is then the table's); any
/// other is LoRa with coding rate 4/5 and inverted polarity.
#[derive(Debug, Clone)]
pub struct DownlinkTxInfo {
    pub frequency: u32,
    pub power: i32,
    pub bandwidth: u32,
    pub spreading_factor: u32,
    pub timing: Timing,
    pub context: Vec<u8>,
}

/// One downlink attempt (RX1, RX2, or a scheduled slot).
#[derive(Debug, Clone)]
pub struct DownlinkFrameItem {
    pub phy_payload: Vec<u8>,
    pub tx_info: DownlinkTxInfo,
}

/// A downlink for the concentrator: its attempts in order of preference.
#[derive(Debug, Clone)]
pub struct DownlinkFrame {
    pub downlink_id: u32,
    pub items: Vec<DownlinkFrameItem>,
}

/// The mathematical content of a [`DownlinkFrameItem`].
pub struct ItemSpec {
    pub phy_payload: Seq<u8>,
    pub frequency: u32,
    pub power: i32,
    pub bandwidth: u32,
    pub spreading_factor: u32,
    pub timing: Timing,
    pub context: Seq<u8>,
}

impl DownlinkFrameItem {
    pub open spec fn spec(&self) -> ItemSpec {
        ItemSpec {
            phy_payload: self.phy_payload@,
            frequency: self.tx_info.frequency,
            power: self.tx_info.power,
            bandwidth: self.tx_info.bandwidth,
            spreading_factor: self.tx_info.spreading_factor,
            timing: self.tx_info.timing,
            context: self.tx_info.context@,
        }
    }
}

/// The mathematical content of the items of a frame.
pub open spec fn item_specs(items: Seq<DownlinkFrameItem>) -> Seq<ItemSpec> {
    items.map_values(|i: DownlinkFrameItem| i.spec())
}

/// Why a downlink could not be built.
#[derive(Debug, Clone, Copy, PartialEq, Eq, Structural)]
pub enum DownlinkError {
    MissingPdu,
    InvalidPdu,
    MissingXtime,
    UnknownDr { dr: i32 },
}

/// Fields of the `dntxed` confirmation (its `txtime` is always 0).
#[derive(Debug, Clone)]
pub struct DnTxedMessage {
    pub diid: i64,
    pub dev_eui: String,
    pub rctx: i64,
    pub xtime: i64,
    pub gpstime: i64,
}

/// Largest whole-second offset probed between the uplink `xtime` and the one
/// echoed by the LNS. LoRaWAN caps RxDelay at 15 s.
pub const MAX_XTIME_OFFSET_SECS: i64 = 15;

/// Outcome of matching a downlink back to the uplink that caused it.
pub struct ResolvedContext {
    /// Context to attach: the cached blob on a hit, else the 4-byte count_us.
    pub context: Vec<u8>,
    /// Whole seconds the LNS added to the uplink `xtime`; 0 on a miss.
    pub offset_secs: i64,
}

/// Offsets probed: 0 up to 15 s minus the RxDelay (at least 0).
pub open spec fn max_probe(rx_delay: u32) -> int {
    if 15 - rx_delay > 0 {
        15 - rx_delay
    } else {
        0
    }
}

/// The xtime an uplink had if the LNS added `o` seconds to it.
pub open spec fn probe_key(xtime: i64, o: int) -> i64 {
    (xtime - o * 1_000_000) as i64
}

/// Offsets below `n` at which an enabled cache holds an uplink, in order.
pub open spec fn probe_hits(c: Map<i64, (Seq<u8>, u64)>, enabled: bool, xtime: i64, n: int) -> Seq<int>
    decreases n,
{
    if n <= 0 {
        Seq::empty()
    } else {
        let h = probe_hits(c, enabled, xtime, n - 1);
        if enabled && c.contains_key(probe_key(xtime, n - 1)) {
            h.push(n - 1)
        } else {
            h
        }
    }
}

proof fn lemma_probe_hits_range(c: Map<i64, (Seq<u8>, u64)>, enabled: bool, xtime: i64, n: int)
    ensures
        forall|i: int| 0 <= i < probe_hits(c, enabled, xtime, n).len() ==> 0 <= #[trigger] probe_hits(c, enabled, xtime, n)[i] < n,
        probe_hits(c, enabled, xtime, n).len() <= if n < 0 { 0 } else { n },
    decreases n,
{
    if n > 0 {
        lemma_probe_hits_range(c, enabled, xtime, n - 1);
    }
}

/// Big-endian bytes of a `u32`.
pub open spec fn be_bytes(v: u32) -> Seq<u8> {
    seq![(v / 16777216) as u8, (v / 65536 % 256) as u8, (v / 256 % 256) as u8, (v % 256) as u8]
}

/// Context and offset for a downlink: the single cached uplink found inside
/// the probe window, or, when none or more than one is found, the 4-byte
/// `count_us` and no offset.
pub open spec fn resolve_spec(
    c: Map<i64, (Seq<u8>, u64)>,
    enabled: bool,
    xtime: i64,
    count_us: u32,
    rx_delay: u32,
) -> (Seq<u8>, i64) {
    let hits = probe_hits(c, enabled, xtime, max_probe(rx_delay) + 1);
    if hits.len() == 1 {
        (c[probe_key(xtime, hits[0])].0, hits[0] as i64)
    } else {
        (be_bytes(count_us), 0)
    }
}

/// The probe window does not run below `i64::MIN`.
pub open spec fn probe_fits(xtime: i64, rx_delay: u32) -> bool {
    xtime - max_probe(rx_delay) * 1_000_000 >= i64::MIN
}

fn be_bytes_of(v: u32) -> (r: Vec<u8>)
    ensures
        r@ == be_bytes(v),
{
    let r = vec![(v / 16777216) as u8, (v / 65536 % 256) as u8, (v / 256 % 256) as u8, (v % 256) as u8];
    assert(r@ =~= be_bytes(v));
    r
}

/// Resolve the concentrator context for a downlink referencing `xtime`.
///
/// Not every LNS echoes the uplink `xtime` verbatim, so whole-second offsets
/// are probed; the matched offset is returned too, because it belongs to the
/// RX1 delay. If more than one cached uplink matches, the match is refused.
pub fn resolve_context(cache: &ContextCache, xtime: i64, count_us: u32, rx_delay: u32) -> (r: ResolvedContext)
    requires
        probe_fits(xtime, rx_delay),
    ensures
        (r.context@, r.offset_secs) == resolve_spec(cache@, cache.is_enabled(), xtime, count_us, rx_delay),
        0 <= r.offset_secs <= MAX_XTIME_OFFSET_SECS,
{
    proof {
        lemma_probe_hits_range(cache@, cache.is_enabled(), xtime, max_probe(rx_delay) + 1);
    }
    let max_offset: i64 = if MAX_XTIME_OFFSET_SECS - (rx_delay as i64) > 0 {
        MAX_XTIME_OFFSET_SECS - (rx_delay as i64)
    } else {
        0
    };
    let mut found: usize = 0;
    let mut first: Option<(i64, Vec<u8>)> = None;
    let mut offset: i64 = 0;
    while offset <= max_offset
        invariant
            0 <= offset <= max_offset + 1,
            max_offset == max_probe(rx_delay),
            probe_fits(xtime, rx_delay),
            found == probe_hits(cache@, cache.is_enabled(), xtime, offset as int).len(),
            found <= offset,
            found == 0 <==> first is None,
            found >= 1 ==> (first matches Some((o, ctx)) && o == probe_hits(
                cache@,
                cache.is_enabled(),
                xtime,
                offset as int,
            )[0] && ctx@ == cache@[probe_key(xtime, o as int)].0),
        decreases max_offset + 1 - offset,
    {
        let candidate = xtime - offset * 1_000_000;
        let hit = get_cached_context(cache, candidate);
        let ghost prev = probe_hits(cache@, cache.is_enabled(), xtime, offset as int);
        proof {
            assert(candidate == probe_key(xtime, offset as int));
        }
        match hit {
            Some(context) => {
                if found == 0 {
                    first = Some((offset, context));
                }
                found = found + 1;
            },
            None => {},
        }
        proof {
            let next = probe_hits(cache@, cache.is_enabled(), xtime, offset + 1);
            if found >= 1 && prev.len() >= 1 {
                assert(next[0] == prev[0]);
            }
        }
        offset = offset + 1;
    }
    if found == 1 {
        match first {
            Some((o, context)) => ResolvedContext { context, offset_secs: o },
            None => ResolvedContext { context: be_bytes_of(count_us), offset_secs: 0 },
        }
    } else {
        ResolvedContext { context: be_bytes_of(count_us), offset_secs: 0 }
    }
}

/// TX power for a downlink: the router's power for a mesh-relayed context,
/// else 0 (the direct path is left untouched).
pub open spec fn power_for(tx_power_dbm: i32, context: Seq<u8>) -> i32 {
    if mesh_context(context) {
        tx_power_dbm
    } else {
        0
    }
}

/// TX power (dBm) for a downlink item.
pub fn downlink_power(rc: &RouterConfigState, context: &[u8]) -> (r: i32)
    ensures
        r == power_for(rc.tx_power_dbm, context@),
{
    if is_mesh_context(context) {
        rc.tx_power_dbm
    } else {
        0
    }
}

/// The DR entry a lookup would use gives its bandwidth in Hz as a `u32`.
pub open spec fn dr_fits(drs: Seq<(u32, u32)>, dr: Option<i32>) -> bool {
    match dr {
        Some(d) => 0 <= d < drs.len() ==> drs[d as int].1 * 1000 <= u32::MAX,
        None => true,
    }
}

/// Whether a DR, when the table has it, gives its bandwidth in Hz as a `u32`.
pub fn dr_fits_check(rc: &RouterConfigState, dr: Option<i32>) -> (r: bool)
    ensures
        r == dr_fits(rc.drs@, dr),
{
    match dr {
        None => true,
        Some(d) => if d < 0 || d as usize >= rc.drs.len() {
            true
        } else {
            rc.drs[d as usize].1 <= 4_294_967
        },
    }
}

/// Whether the probe window below an echoed xtime stays in range.
pub fn probe_fits_check(xtime: i64, rx_delay: u32) -> (r: bool)
    ensures
        r == probe_fits(xtime, rx_delay),
{
    let max_offset: i64 = if rx_delay < 15 {
        15 - rx_delay as i64
    } else {
        0
    };
    xtime >= i64::MIN + max_offset * 1_000_000
}

/// An RX window item, when the message names both its DR and frequency and
/// the DR is in the table.
pub open spec fn window_item(
    drs: Seq<(u32, u32)>,
    dr: Option<i32>,
    freq: Option<u32>,
    phy: Seq<u8>,
    delay: i64,
    context: Seq<u8>,
    power: i32,
) -> Seq<ItemSpec> {
    match (dr, freq) {
        (Some(d), Some(f)) => match dr_sf_bw(drs, d) {
            Some((sf, bw)) => seq![ItemSpec {
                phy_payload: phy,
                frequency: f,
                power,
                bandwidth: bw,
                spreading_factor: sf,
                timing: Timing::Delay { seconds: delay },
                context,
            }],
            None => Seq::empty(),
        },
        _ => Seq::empty(),
    }
}

/// The RX1 and RX2 items of a downlink answering the uplink at `xtime`:
/// RX1 after RxDelay plus the matched offset, RX2 one second later.
pub open spec fn rx_windows_spec(
    msg: DownlinkMessage,
    drs: Seq<(u32, u32)>,
    tx_power_dbm: i32,
    c: Map<i64, (Seq<u8>, u64)>,
    enabled: bool,
    xtime: i64,
    phy: Seq<u8>,
) -> Seq<ItemSpec> {
    let rx_delay = match msg.rx_delay { Some(d) => d as u32, None => 1u32 };
    let count_us = (xtime & 0xFFFF_FFFF_FFFFi64) as u32;
    let (context, offset) = resolve_spec(c, enabled, xtime, count_us, rx_delay);
    let power = power_for(tx_power_dbm, context);
    let rx1_delay = rx_delay + offset;
    window_item(drs, msg.rx1_dr, msg.rx1_freq, phy, rx1_delay as i64, context, power)
        + window_item(drs, msg.rx2_dr, msg.rx2_freq, phy, (rx1_delay + 1) as i64, context, power)
}

/// `downlink_id` of a message: its diid cut to 32 bits (0 if absent).
pub open spec fn downlink_id_of(msg: DownlinkMessage) -> u32 {
    match msg.diid { Some(d) => d as u32, None => 0 }
}

/// What building may require of a message: the DRs it names fit, and the
/// probe window fits.
pub open spec fn windows_ok(msg: DownlinkMessage, drs: Seq<(u32, u32)>) -> bool {
    &&& (msg.rx1_freq is Some ==> dr_fits(drs, msg.rx1_dr))
    &&& (msg.rx2_freq is Some ==> dr_fits(drs, msg.rx2_dr))
    &&& match msg.xtime {
        Some(x) => probe_fits(x, match msg.rx_delay { Some(d) => d as u32, None => 1u32 }),
        None => true,
    }
}

fn window_push(
    items: &mut Vec<DownlinkFrameItem>,
    rc: &RouterConfigState,
    dr: Option<i32>,
    freq: Option<u32>,
    phy_payload: &[u8],
    delay: i64,
    context: &Vec<u8>,
    power: i32,
)
    requires
        dr_fits(rc.drs@, dr) || freq is None,
    ensures
        item_specs(final(items)@) == item_specs(old(items)@) + window_item(
            rc.drs@,
            dr,
            freq,
            phy_payload@,
            delay,
            context@,
            power,
        ),
{
    if let (Some(d), Some(f)) = (dr, freq) {
        if let Some((sf, bw_hz)) = rc.dr_to_sf_bw(d) {
            items.push(
                DownlinkFrameItem {
                    phy_payload: vstd::slice::slice_to_vec(phy_payload),
                    tx_info: DownlinkTxInfo {
                        frequency: f,
                        power,
                        bandwidth: bw_hz,
                        spreading_factor: sf,
                        timing: Timing::Delay { seconds: delay },
                        context: vstd::slice::slice_to_vec(context.as_slice()),
                    },
                },
            );
        }
    }
    assert(item_specs(final(items)@) =~= item_specs(old(items)@) + window_item(
        rc.drs@,
        dr,
        freq,
        phy_payload@,
        delay,
        context@,
        power,
    ));
}

fn rx_windows(
    msg: &DownlinkMessage,
    rc: &RouterConfigState,
    cache: &ContextCache,
    xtime: i64,
    phy_payload: &[u8],
) -> (r: Vec<DownlinkFrameItem>)
    requires
        windows_ok(*msg, rc.drs@),
        msg.xtime == Some(xtime),
    ensures
        item_specs(r@) == rx_windows_spec(
            *msg,
            rc.drs@,
            rc.tx_power_dbm,
            cache@,
            cache.is_enabled(),
            xtime,
            phy_payload@,
        ),
{
    let rx_delay: u32 = match msg.rx_delay {
        Some(d) => d as u32,
        None => 1,
    };
    let count_us = (xtime & 0x0000_FFFF_FFFF_FFFF) as u32;
    let resolved = resolve_context(cache, xtime, count_us, rx_delay);
    let context = resolved.context;
    let power = downlink_power(rc, context.as_slice());
    let rx1_delay = rx_delay as i64 + resolved.offset_secs;
    let mut items: Vec<DownlinkFrameItem> = Vec::new();
    window_push(&mut items, rc, msg.rx1_dr, msg.rx1_freq, phy_payload, rx1_delay, &context, power);
    window_push(&mut items, rc, msg.rx2_dr, msg.rx2_freq, phy_payload, rx1_delay + 1, &context, power);
    assert(item_specs(items@) =~= rx_windows_spec(
        *msg,
        rc.drs@,
        rc.tx_power_dbm,
        cache@,
        cache.is_enabled(),
        xtime,
        phy_payload@,
    ));
    items
}

/// Class A: RX1 and RX2 answering the uplink at the message's `xtime`.
pub open spec fn class_a_spec(
    msg: DownlinkMessage,
    drs: Seq<(u32, u32)>,
    tx_power_dbm: i32,
    c: Map<i64, (Seq<u8>, u64)>,
    enabled: bool,
    phy: Seq<u8>,
) -> Result<Seq<ItemSpec>, DownlinkError> {
    match msg.xtime {
        None => Err(DownlinkError::MissingXtime),
        Some(x) => Ok(rx_windows_spec(msg, drs, tx_power_dbm, c, enabled, x, phy)),
    }
}

fn diid_u32(msg: &DownlinkMessage) -> (r: u32)
    ensures
        r == downlink_id_of(*msg),
{
    match msg.diid {
        Some(d) => d as u32,
        None => 0,
    }
}

/// Build a Class A downlink frame.
pub fn build_class_a_downlink(
    msg: &DownlinkMessage,
    rc: &RouterConfigState,
    cache: &ContextCache,
    phy_payload: &[u8],
) -> (r: Result<DownlinkFrame, DownlinkError>)
    requires
        windows_ok(*msg, rc.drs@),
    ensures
        match class_a_spec(*msg, rc.drs@, rc.tx_power_dbm, cache@, cache.is_enabled(), phy_payload@) {
            Ok(items) => r matches Ok(f) && item_specs(f.items@) == items && f.downlink_id
                == downlink_id_of(*msg),
            Err(e) => r == Err::<DownlinkFrame, DownlinkError>(e),
        },
{
    let xtime = match msg.xtime {
        Some(x) => x,
        None => return Err(DownlinkError::MissingXtime),
    };
    let items = rx_windows(msg, rc, cache, xtime, phy_payload);
    Ok(DownlinkFrame { downlink_id: diid_u32(msg), items })
}

/// Time since the GPS epoch of a microsecond GPS time.
pub open spec fn gps_timing(gpstime: i64) -> Timing {
    Timing::GpsEpoch {
        seconds: tdiv(gpstime as int, 1_000_000) as i64,
        nanos: ((gpstime - 1_000_000 * tdiv(gpstime as int, 1_000_000)) * 1000) as i32,
    }
}

fn gps_timing_of(gpstime: i64) -> (r: Timing)
    ensures
        r == gps_timing(gpstime),
{
    Timing::GpsEpoch { seconds: gpstime / 1_000_000, nanos: ((gpstime % 1_000_000) * 1000) as i32 }
}

/// A single item at a GPS time: LoRa with the DR's SF and bandwidth, power 0,
/// no context.
pub open spec fn gps_item(phy: Seq<u8>, freq: u32, sf: u32, bw: u32, gpstime: i64) -> ItemSpec {
    ItemSpec {
        phy_payload: phy,
        frequency: freq,
        power: 0,
        bandwidth: bw,
        spreading_factor: sf,
        timing: gps_timing(gpstime),
        context: Seq::empty(),
    }
}

/// Class B: one item at the message's GPS time on its DR and frequency
/// (DR 0, frequency 0 and GPS time 0 when absent); an unknown DR is an error.
pub open spec fn class_b_spec(msg: DownlinkMessage, drs: Seq<(u32, u32)>, phy: Seq<u8>) -> Result<
    Seq<ItemSpec>,
    DownlinkError,
> {
    let dr = match msg.dr { Some(d) => d, None => 0 };
    let freq = match msg.freq { Some(f) => f, None => 0 };
    let gpstime = match msg.gpstime { Some(g) => g, None => 0 };
    match dr_sf_bw(drs, dr) {
        None => Err(DownlinkError::UnknownDr { dr }),
        Some((sf, bw)) => Ok(seq![gps_item(phy, freq, sf, bw, gpstime)]),
    }
}

/// Build a Class B downlink frame.
pub fn build_class_b_downlink(msg: &DownlinkMessage, rc: &RouterConfigState, phy_payload: &[u8]) -> (r:
    Result<DownlinkFrame, DownlinkError>)
    requires
        dr_fits(rc.drs@, Some(match msg.dr { Some(d) => d, None => 0 })),
    ensures
        match class_b_spec(*msg, rc.drs@, phy_payload@) {
            Ok(items) => r matches Ok(f) && item_specs(f.items@) == items && f.downlink_id
                == downlink_id_of(*msg),
            Err(e) => r == Err::<DownlinkFrame, DownlinkError>(e),
        },
{
    let dr = match msg.dr {
        Some(d) => d,
        None => 0,
    };
    let freq = match msg.freq {
        Some(f) => f,
        None => 0,
    };
    let gpstime = match msg.gpstime {
        Some(g) => g,
        None => 0,
    };
    let (sf, bw_hz) = match rc.dr_to_sf_bw(dr) {
        Some(p) => p,
        None => return Err(DownlinkError::UnknownDr { dr }),
    };
    let mut items: Vec<DownlinkFrameItem> = Vec::new();
    items.push(
        DownlinkFrameItem {
            phy_payload: vstd::slice::slice_to_vec(phy_payload),
            tx_info: DownlinkTxInfo {
                frequency: freq,
                power: 0,
                bandwidth: bw_hz,
                spreading_factor: sf,
                timing: gps_timing_of(gpstime),
                context: Vec::new(),
            },
        },
    );
    assert(item_specs(items@) =~= seq![gps_item(phy_payload@, freq, sf, bw_hz, gpstime)]);
    Ok(DownlinkFrame { downlink_id: diid_u32(msg), items })
}

/// Class C: like Class A when the message carries an `xtime`; otherwise
/// an immediate transmission on RX2 (power 0, no context), when RX2 is given
/// and its DR is known.
pub open spec fn class_c_spec(
    msg: DownlinkMessage,
    drs: Seq<(u32, u32)>,
    tx_power_dbm: i32,
    c: Map<i64, (Seq<u8>, u64)>,
    enabled: bool,
    phy: Seq<u8>,
) -> Seq<ItemSpec> {
    match msg.xtime {
        Some(x) => rx_windows_spec(msg, drs, tx_power_dbm, c, enabled, x, phy),
        None => match (msg.rx2_dr, msg.rx2_freq) {
            (Some(d), Some(f)) => match dr_sf_bw(drs, d) {
                Some((sf, bw)) => seq![ItemSpec {
                    phy_payload: phy,
                    frequency: f,
                    power: 0,
                    bandwidth: bw,
                    spreading_factor: sf,
                    timing: Timing::Immediately,
                    context: Seq::empty(),
                }],
                None => Seq::empty(),
            },
            _ => Seq::empty(),
        },
    }
}

/// Build a Class C downlink frame.
pub fn build_class_c_downlink(
    msg: &DownlinkMessage,
    rc: &RouterConfigState,
    cache: &ContextCache,
    phy_payload: &[u8],
) -> (r: Result<DownlinkFrame, DownlinkError>)
    requires
        windows_ok(*msg, rc.drs@),
    ensures
        r matches Ok(f) && item_specs(f.items@) == class_c_spec(
            *msg,
            rc.drs@,
            rc.tx_power_dbm,
            cache@,
            cache.is_enabled(),
            phy_payload@,
        ) && f.downlink_id == downlink_id_of(*msg),
{
    let items = match msg.xtime {
        Some(xtime) => rx_windows(msg, rc, cache, xtime, phy_payload),
        None => {
            let mut items: Vec<DownlinkFrameItem> = Vec::new();
            if let (Some(d), Some(f)) = (msg.rx2_dr, msg.rx2_freq) {
                if let Some((sf, bw_hz)) = rc.dr_to_sf_bw(d) {
                    items.push(
                        DownlinkFrameItem {
                            phy_payload: vstd::slice::slice_to_vec(phy_payload),
                            tx_info: DownlinkTxInfo {
                                frequency: f,
                                power: 0,
                                bandwidth: bw_hz,
                                spreading_factor: sf,
                                timing: Timing::Immediately,
                                context: Vec::new(),
                            },
                        },
                    );
                }
            }
            assert(item_specs(items@) =~= class_c_spec(
                *msg,
                rc.drs@,
                rc.tx_power_dbm,
                cache@,
                cache.is_enabled(),
                phy_payload@,
            ));
            items
        },
    };
    Ok(DownlinkFrame { downlink_id: diid_u32(msg), items })
}

/// The items of a dnmsg of a known class (0 = A, 1 = B, 2 = C).
pub open spec fn dnmsg_items(
    msg: DownlinkMessage,
    drs: Seq<(u32, u32)>,
    tx_power_dbm: i32,
    c: Map<i64, (Seq<u8>, u64)>,
    enabled: bool,
    phy: Seq<u8>,
) -> Result<Seq<ItemSpec>, DownlinkError> {
    let dc = match msg.dc { Some(d) => d, None => 0 };
    if dc == 0 {
        class_a_spec(msg, drs, tx_power_dbm, c, enabled, phy)
    } else if dc == 1 {
        class_b_spec(msg, drs, phy)
    } else {
        Ok(class_c_spec(msg, drs, tx_power_dbm, c, enabled, phy))
    }
}

/// Everything a dnmsg may require: its DRs fit, and the probe window fits.
pub open spec fn dnmsg_ok(msg: DownlinkMessage, drs: Seq<(u32, u32)>) -> bool {
    &&& windows_ok(msg, drs)
    &&& dr_fits(drs, Some(match msg.dr { Some(d) => d, None => 0 }))
}

/// Whether [`handle_dnmsg`] can take this message with this DR table.
pub fn dnmsg_acceptable(msg: &DownlinkMessage, rc: &RouterConfigState) -> (r: bool)
    ensures
        r == dnmsg_ok(*msg, rc.drs@),
{
    let rx1 = msg.rx1_freq.is_none() || dr_fits_check(rc, msg.rx1_dr);
    let rx2 = msg.rx2_freq.is_none() || dr_fits_check(rc, msg.rx2_dr);
    let probe = match msg.xtime {
        Some(x) => probe_fits_check(
            x,
            match msg.rx_delay {
                Some(d) => d as u32,
                None => 1,
            },
        ),
        None => true,
    };
    let dr = match msg.dr {
        Some(d) => d,
        None => 0,
    };
    rx1 && rx2 && probe && dr_fits_check(rc, Some(dr))
}

/// What handling a dnmsg gives: an error for a missing or non-hex PDU, no
/// frame for an unknown class, else the frame of the message's class and
/// the fields of its `dntxed` confirmation.
pub open spec fn dnmsg_outcome(
    msg: DownlinkMessage,
    drs: Seq<(u32, u32)>,
    tx_power_dbm: i32,
    c: Map<i64, (Seq<u8>, u64)>,
    enabled: bool,
    r: Result<Option<(DownlinkFrame, DnTxedMessage)>, DownlinkError>,
) -> bool {
    match msg.pdu {
        None => r == Err::<Option<(DownlinkFrame, DnTxedMessage)>, DownlinkError>(DownlinkError::MissingPdu),
        Some(p) => if !hex_decodable(encode_utf8(p@)) {
            r == Err::<Option<(DownlinkFrame, DnTxedMessage)>, DownlinkError>(DownlinkError::InvalidPdu)
        } else if match msg.dc { Some(d) => d, None => 0 } > 2 {
            r matches Ok(None)
        } else {
            match dnmsg_items(msg, drs, tx_power_dbm, c, enabled, hex_decoded(encode_utf8(p@))) {
                Ok(items) => r matches Ok(Some((f, t))) && item_specs(f.items@) == items
                    && f.downlink_id == downlink_id_of(msg) && t.diid == match msg.diid {
                    Some(d) => d,
                    None => 0,
                } && t.dev_eui@ == match msg.dev_eui {
                    Some(e) => e@,
                    None => Seq::<char>::empty(),
                } && t.rctx == match msg.rctx {
                    Some(x) => x,
                    None => 0,
                } && t.xtime == match msg.xtime {
                    Some(x) => x,
                    None => 0,
                } && t.gpstime == match msg.gpstime {
                    Some(x) => x,
                    None => 0,
                },
                Err(e) => r == Err::<Option<(DownlinkFrame, DnTxedMessage)>, DownlinkError>(e),
            }
        },
    }
}

/// Process a dnmsg from the LNS: the downlink frame to send and the fields
/// of its `dntxed` confirmation, or `None` for an unknown downlink class.
/// The PDU must be present and valid hex.
pub fn handle_dnmsg(msg: &DownlinkMessage, rc: &RouterConfigState, cache: &ContextCache) -> (r: Result<
    Option<(DownlinkFrame, DnTxedMessage)>,
    DownlinkError,
>)
    requires
        dnmsg_ok(*msg, rc.drs@),
    ensures
        dnmsg_outcome(*msg, rc.drs@, rc.tx_power_dbm, cache@, cache.is_enabled(), r),
{
    let dc = match msg.dc {
        Some(d) => d,
        None => 0,
    };
    let diid = match msg.diid {
        Some(d) => d,
        None => 0,
    };
    let dev_eui = match &msg.dev_eui {
        Some(e) => e.clone(),
        None => String::new(),
    };
    let pdu = match &msg.pdu {
        Some(p) => p,
        None => return Err(DownlinkError::MissingPdu),
    };
    let phy_payload = match hex_decode(pdu.as_str()) {
        Ok(v) => v,
        Err(_) => return Err(DownlinkError::InvalidPdu),
    };
    let frame = if dc == 0 {
        match build_class_a_downlink(msg, rc, cache, phy_payload.as_slice()) {
            Ok(f) => f,
            Err(e) => return Err(e),
        }
    } else if dc == 1 {
        match build_class_b_downlink(msg, rc, phy_payload.as_slice()) {
            Ok(f) => f,
            Err(e) => return Err(e),
        }
    } else if dc == 2 {
        match build_class_c_downlink(msg, rc, cache, phy_payload.as_slice()) {
            Ok(f) => f,
            Err(e) => return Err(e),
        }
    } else {
        return Ok(None);
    };
    let dntxed = DnTxedMessage {
        diid,
        dev_eui,
        rctx: match msg.rctx {
            Some(x) => x,
            None => 0,
        },
        xtime: match msg.xtime {
            Some(x) => x,
            None => 0,
        },
        gpstime: match msg.gpstime {
            Some(x) => x,
            None => 0,
        },
    };
    Ok(Some((frame, dntxed)))
}

/// The frame for one dnsched entry: nothing for an entry without PDU;
/// otherwise one item at the entry's GPS time with the modulation of its DR
/// (LoRa, or FSK for a DR with SF 0).
pub open spec fn schedule_entry_spec(e: ScheduleEntry, drs: Seq<(u32, u32)>) -> Result<
    Option<Seq<ItemSpec>>,
    DownlinkError,
> {
    match e.pdu {
        None => Ok(None),
        Some(p) => if !hex_decodable(encode_utf8(p@)) {
            Err(DownlinkError::InvalidPdu)
        } else {
            let dr = match e.dr { Some(d) => d, None => 0 };
            let freq = match e.freq { Some(f) => f, None => 0 };
            let gpstime = match e.gpstime { Some(g) => g, None => 0 };
            match dr_sf_bw(drs, dr) {
                None => Err(DownlinkError::UnknownDr { dr }),
                Some((sf, bw)) => Ok(Some(seq![gps_item(hex_decoded(encode_utf8(p@)), freq, sf, bw, gpstime)])),
            }
        },
    }
}

/// Process one entry of a dnsched (multicast/beacon schedule): the frame to
/// send (downlink id 0), if any.
pub fn handle_dnsched_entry(entry: &ScheduleEntry, rc: &RouterConfigState) -> (r: Result<
    Option<DownlinkFrame>,
    DownlinkError,
>)
    requires
        dr_fits(rc.drs@, Some(match entry.dr { Some(d) => d, None => 0 })),
    ensures
        match schedule_entry_spec(*entry, rc.drs@) {
            Ok(None) => r matches Ok(None),
            Ok(Some(items)) => r matches Ok(Some(f)) && item_specs(f.items@) == items && f.downlink_id
                == 0,
            Err(e) => r == Err::<Option<DownlinkFrame>, DownlinkError>(e),
        },
{
    let pdu = match &entry.pdu {
        Some(p) => match hex_decode(p.as_str()) {
            Ok(v) => v,
            Err(_) => return Err(DownlinkError::InvalidPdu),
        },
        None => return Ok(None),
    };
    let dr = match entry.dr {
        Some(d) => d,
        None => 0,
    };
    let freq = match entry.freq {
        Some(f) => f,
        None => 0,
    };
    let gpstime = match entry.gpstime {
        Some(g) => g,
        None => 0,
    };
    let (sf, bw_hz) = match rc.dr_to_sf_bw(dr) {
        Some(p) => p,
        None => return Err(DownlinkError::UnknownDr { dr }),
    };
    let ghost pdu_view = pdu@;
    let mut items: Vec<DownlinkFrameItem> = Vec::new();
    items.push(
        DownlinkFrameItem {
            phy_payload: pdu,
            tx_info: DownlinkTxInfo {
                frequency: freq,
                power: 0,
                bandwidth: bw_hz,
                spreading_factor: sf,
                timing: gps_timing_of(gpstime),
                context: Vec::new(),
            },
        },
    );
    assert(item_specs(items@) =~= seq![gps_item(pdu_view, freq, sf, bw_hz, gpstime)]);
    Ok(Some(DownlinkFrame { downlink_id: 0, items }))
}

/// What a whole dnsched yields: the item lists of the frames to send, in
/// order, and the error that stopped the walk, if any. Entries before the
/// failing one still produce their frames.
pub open spec fn dnsched_spec(entries: Seq<ScheduleEntry>, drs: Seq<(u32, u32)>) -> (
    Seq<Seq<ItemSpec>>,
    Option<DownlinkError>,
)
    decreases entries.len(),
{
    if entries.len() == 0 {
        (seq![], None)
    } else {
        match schedule_entry_spec(entries[0], drs) {
            Err(e) => (seq![], Some(e)),
            Ok(None) => dnsched_spec(entries.drop_first(), drs),
            Ok(Some(items)) => {
                let rest = dnsched_spec(entries.drop_first(), drs);
                (seq![items] + rest.0, rest.1)
            },
        }
    }
}

/// Whether [`handle_dnsched`] can take this schedule with this DR table.
pub fn dnsched_acceptable(msg: &DownlinkSchedule, rc: &RouterConfigState) -> (r: bool)
    ensures
        r == forall|k: int|
            0 <= k < msg.schedule@.len() ==> dr_fits(
                rc.drs@,
                Some(match #[trigger] msg.schedule@[k].dr { Some(d) => d, None => 0 }),
            ),
{
    let n = msg.schedule.len();
    let mut i: usize = 0;
    while i < n
        invariant
            n == msg.schedule@.len(),
            i <= n,
            forall|k: int|
                0 <= k < i ==> dr_fits(
                    rc.drs@,
                    Some(match #[trigger] msg.schedule@[k].dr { Some(d) => d, None => 0 }),
                ),
        decreases n - i,
    {
        let dr = match msg.schedule[i].dr {
            Some(d) => d,
            None => 0,
        };
        if !dr_fits_check(rc, Some(dr)) {
            return false;
        }
        i = i + 1;
    }
    true
}

/// Process a dnsched message: the frames to send in order (each with
/// downlink id 0), and the error at the first entry that could not be
/// handled, after which the rest of the schedule is dropped.
pub fn handle_dnsched(msg: &DownlinkSchedule, rc: &RouterConfigState) -> (r: (
    Vec<DownlinkFrame>,
    Option<DownlinkError>,
))
    requires
        forall|k: int|
            0 <= k < msg.schedule@.len() ==> dr_fits(
                rc.drs@,
                Some(match #[trigger] msg.schedule@[k].dr { Some(d) => d, None => 0 }),
            ),
    ensures
        r.1 == dnsched_spec(msg.schedule@, rc.drs@).1,
        r.0@.len() == dnsched_spec(msg.schedule@, rc.drs@).0.len(),
        forall|k: int|
            0 <= k < r.0@.len() ==> item_specs(#[trigger] r.0@[k].items@) == dnsched_spec(
                msg.schedule@,
                rc.drs@,
            ).0[k] && r.0@[k].downlink_id == 0,
{
    let ghost all = msg.schedule@;
    let ghost drs = rc.drs@;
    let mut frames: Vec<DownlinkFrame> = Vec::new();
    let mut i: usize = 0;
    assert(all.skip(0) =~= all);
    assert(Seq::new(0, |k: int| item_specs(frames@[k].items@)) + dnsched_spec(all, drs).0
        =~= dnsched_spec(all, drs).0);
    while i < msg.schedule.len()
        invariant
            all == msg.schedule@,
            drs == rc.drs@,
            i <= all.len(),
            forall|k: int|
                0 <= k < all.len() ==> dr_fits(
                    drs,
                    Some(match #[trigger] all[k].dr { Some(d) => d, None => 0 }),
                ),
            dnsched_spec(all, drs).1 == dnsched_spec(all.skip(i as int), drs).1,
            dnsched_spec(all, drs).0 == Seq::new(
                frames@.len(),
                |k: int| item_specs(frames@[k].items@),
            ) + dnsched_spec(all.skip(i as int), drs).0,
            forall|k: int| 0 <= k < frames@.len() ==> (#[trigger] frames@[k]).downlink_id == 0,
        decreases all.len() - i,
    {
        let ghost rest = all.skip(i as int);
        assert(rest[0] == all[i as int]);
        assert(rest.drop_first() =~= all.skip(i + 1));
        let ghost before = Seq::new(frames@.len(), |k: int| item_specs(frames@[k].items@));
        match handle_dnsched_entry(&msg.schedule[i], rc) {
            Err(e) => {
                return (frames, Some(e));
            },
            Ok(None) => {},
            Ok(Some(f)) => {
                let ghost fs = item_specs(f.items@);
                frames.push(f);
                assert(Seq::new(frames@.len(), |k: int| item_specs(frames@[k].items@)) =~= before.push(
                    fs,
                ));
                assert(seq![fs] + dnsched_spec(all.skip(i + 1), drs).0 =~= seq![fs].add(
                    dnsched_spec(all.skip(i + 1), drs).0,
                ));
                assert(before.push(fs) + dnsched_spec(all.skip(i + 1), drs).0 =~= before + (seq![fs]
                    + dnsched_spec(all.skip(i + 1), drs).0));
            },
        }
        i = i + 1;
    }
    assert(all.skip(i as int).len() == 0);
    assert(Seq::new(frames@.len(), |k: int| item_specs(frames@[k].items@)) + dnsched_spec(
        all.skip(i as int),
        drs,
    ).0 =~= Seq::new(frames@.len(), |k: int| item_specs(frames@[k].items@)));
    (frames, None)
}

// ---------------------------------------------------------------------------
// Laws
// ---------------------------------------------------------------------------

proof fn lemma_probe_hits_none(c: Map<i64, (Seq<u8>, u64)>, enabled: bool, xtime: i64, n: int)
    requires
        forall|o: int| 0 <= o < n ==> !(enabled && c.contains_key(#[trigger] probe_key(xtime, o))),
    ensures
        probe_hits(c, enabled, xtime, n).len() == 0,
    decreases n,
{
    if n > 0 {
        lemma_probe_hits_none(c, enabled, xtime, n - 1);
    }
}

proof fn lemma_probe_hits_one(c: Map<i64, (Seq<u8>, u64)>, enabled: bool, xtime: i64, n: int, o0: int)
    requires
        0 <= o0 < n,
        enabled && c.contains_key(probe_key(xtime, o0)),
        forall|o: int| 0 <= o < n && o != o0 ==> !(enabled && c.contains_key(#[trigger] probe_key(xtime, o))),
    ensures
        probe_hits(c, enabled, xtime, n) == seq![o0],
    decreases n,
{
    if n - 1 == o0 {
        lemma_probe_hits_none(c, enabled, xtime, n - 1);
        assert(probe_hits(c, enabled, xtime, n) =~= seq![o0]);
    } else {
        lemma_probe_hits_one(c, enabled, xtime, n - 1, o0);
    }
}

proof fn lemma_probe_hits_some(c: Map<i64, (Seq<u8>, u64)>, enabled: bool, xtime: i64, n: int, o: int)
    requires
        0 <= o < n,
        enabled && c.contains_key(probe_key(xtime, o)),
    ensures
        probe_hits(c, enabled, xtime, n).len() >= 1,
    decreases n,
{
    if n - 1 != o {
        lemma_probe_hits_some(c, enabled, xtime, n - 1, o);
    }
}

proof fn lemma_probe_hits_two(c: Map<i64, (Seq<u8>, u64)>, enabled: bool, xtime: i64, n: int, o1: int, o2: int)
    requires
        0 <= o1 < o2 < n,
        enabled && c.contains_key(probe_key(xtime, o1)),
        enabled && c.contains_key(probe_key(xtime, o2)),
    ensures
        probe_hits(c, enabled, xtime, n).len() >= 2,
    decreases n,
{
    if n - 1 == o2 {
        lemma_probe_hits_some(c, enabled, xtime, n - 1, o1);
    } else {
        lemma_probe_hits_two(c, enabled, xtime, n - 1, o1, o2);
    }
}

/// When exactly one cached uplink lies inside the probe window (at `o`
/// whole seconds before the echoed xtime), its context is restored verbatim
/// and `o` is added to the RX delay.
pub proof fn law_unique_match_restores_context(
    c: Map<i64, (Seq<u8>, u64)>,
    xtime: i64,
    count_us: u32,
    rx_delay: u32,
    o: int,
)
    requires
        0 <= o <= max_probe(rx_delay),
        c.contains_key(probe_key(xtime, o)),
        forall|p: int| 0 <= p <= max_probe(rx_delay) && p != o ==> !c.contains_key(
            #[trigger] probe_key(xtime, p),
        ),
    ensures
        resolve_spec(c, true, xtime, count_us, rx_delay) == (c[probe_key(xtime, o)].0, o as i64),
{
    lemma_probe_hits_one(c, true, xtime, max_probe(rx_delay) + 1, o);
}

/// When two cached uplinks lie inside the probe window, the downlink is not
/// matched to either: it falls back to the 4-byte count_us and no offset.
pub proof fn law_ambiguous_match_is_refused(
    c: Map<i64, (Seq<u8>, u64)>,
    enabled: bool,
    xtime: i64,
    count_us: u32,
    rx_delay: u32,
    o1: int,
    o2: int,
)
    requires
        0 <= o1 < o2 <= max_probe(rx_delay),
        enabled,
        c.contains_key(probe_key(xtime, o1)),
        c.contains_key(probe_key(xtime, o2)),
    ensures
        resolve_spec(c, enabled, xtime, count_us, rx_delay) == (be_bytes(count_us), 0i64),
{
    lemma_probe_hits_two(c, enabled, xtime, max_probe(rx_delay) + 1, o1, o2);
}

/// With caching disabled, or no cached uplink inside the probe window, a
/// downlink falls back to the 4-byte count_us and no offset.
pub proof fn law_miss_falls_back(
    c: Map<i64, (Seq<u8>, u64)>,
    enabled: bool,
    xtime: i64,
    count_us: u32,
    rx_delay: u32,
)
    requires
        !enabled || forall|o: int| 0 <= o <= max_probe(rx_delay) ==> !c.contains_key(
            #[trigger] probe_key(xtime, o),
        ),
    ensures
        resolve_spec(c, enabled, xtime, count_us, rx_delay) == (be_bytes(count_us), 0i64),
{
    lemma_probe_hits_none(c, enabled, xtime, max_probe(rx_delay) + 1);
}

/// An uplink's context cached under its xtime comes back on the downlink
/// that echoes that xtime, either verbatim or moved on by `o` whole seconds
/// (within the window that the RxDelay leaves), when no other cached uplink
/// lies in the window; the offset is reported.
pub proof fn law_uplink_context_restored_on_downlink(
    c: Map<i64, (Seq<u8>, u64)>,
    uplink_xtime: i64,
    context: Seq<u8>,
    now_ns: u64,
    o: int,
    count_us: u32,
    rx_delay: u32,
)
    requires
        0 <= o <= max_probe(rx_delay),
        uplink_xtime + o * 1_000_000 <= i64::MAX,
        probe_fits((uplink_xtime + o * 1_000_000) as i64, rx_delay),
        forall|p: int| 0 <= p <= max_probe(rx_delay) && p != o ==> !c.contains_key(
            #[trigger] probe_key((uplink_xtime + o * 1_000_000) as i64, p),
        ),
    ensures
        resolve_spec(
            c.insert(uplink_xtime, (context, now_ns)),
            true,
            (uplink_xtime + o * 1_000_000) as i64,
            count_us,
            rx_delay,
        ) == (context, o as i64),
{
    let m = c.insert(uplink_xtime, (context, now_ns));
    let echoed = (uplink_xtime + o * 1_000_000) as i64;
    assert(probe_key(echoed, o) == uplink_xtime);
    assert forall|p: int| 0 <= p <= max_probe(rx_delay) && p != o implies !m.contains_key(
        #[trigger] probe_key(echoed, p),
    ) by {
        assert(probe_key(echoed, p) != uplink_xtime);
    }
    law_unique_match_restores_context(m, echoed, count_us, rx_delay, o);
}

/// The RX2 attempt of a downlink answering an uplink goes out one second
/// after RX1, with the same context and power.
pub proof fn law_rx2_follows_rx1(
    msg: DownlinkMessage,
    drs: Seq<(u32, u32)>,
    tx_power_dbm: i32,
    c: Map<i64, (Seq<u8>, u64)>,
    enabled: bool,
    xtime: i64,
    phy: Seq<u8>,
)
    requires
        msg.rx1_dr is Some && msg.rx1_freq is Some && dr_sf_bw(drs, msg.rx1_dr->0) is Some,
        msg.rx2_dr is Some && msg.rx2_freq is Some && dr_sf_bw(drs, msg.rx2_dr->0) is Some,
    ensures
        ({
            let items = rx_windows_spec(msg, drs, tx_power_dbm, c, enabled, xtime, phy);
            &&& items.len() == 2
            &&& items[0].timing matches Timing::Delay { seconds: d1 }
            &&& items[1].timing == Timing::Delay { seconds: (items[0].timing->Delay_seconds + 1) as i64 }
            &&& items[0].context == items[1].context
            &&& items[0].power == items[1].power
        }),
{
    let rx_delay = match msg.rx_delay { Some(d) => d as u32, None => 1u32 };
    let count_us = (xtime & 0xFFFF_FFFF_FFFFi64) as u32;
    lemma_probe_hits_range(c, enabled, xtime, max_probe(rx_delay) + 1);
}

/// A Class C downlink that answers an uplink (it carries an xtime) is built
/// exactly as a Class A one: the same RX1 and RX2 items.
pub proof fn law_class_c_with_xtime_is_class_a(
    msg: DownlinkMessage,
    drs: Seq<(u32, u32)>,
    tx_power_dbm: i32,
    c: Map<i64, (Seq<u8>, u64)>,
    enabled: bool,
    phy: Seq<u8>,
)
    requires
        msg.xtime is Some,
    ensures
        class_a_spec(msg, drs, tx_power_dbm, c, enabled, phy) == Ok::<Seq<ItemSpec>, DownlinkError>(
            class_c_spec(msg, drs, tx_power_dbm, c, enabled, phy),
        ),
{
}

/// A GPS time in microseconds as a GPS-epoch timing: whole seconds and the
/// nanoseconds that remain, both with the sign of the time, so that
/// `seconds * 1_000_000 + nanos / 1000` gives the time back.
pub open spec fn is_gps_epoch_of(t: Timing, gpstime: int) -> bool {
    &&& t matches Timing::GpsEpoch { seconds, nanos }
    &&& seconds * 1_000_000 + nanos / 1000 == gpstime
    &&& nanos % 1000 == 0
    &&& gpstime >= 0 ==> 0 <= nanos < 1_000_000_000
    &&& gpstime < 0 ==> -1_000_000_000 < nanos <= 0
}

/// The GPS-epoch timing of a GPS time gives that time back.
pub proof fn lemma_gps_timing_exact(g: i64)
    ensures
        is_gps_epoch_of(gps_timing(g), g as int),
{
    let a = g as int;
    let q = tdiv(a, 1_000_000);
    let rem = a - 1_000_000 * q;
    if a >= 0 {
        assert(0 <= rem < 1_000_000);
    } else {
        assert((-a) / 1_000_000 * 1_000_000 <= -a);
        assert(-a < (-a) / 1_000_000 * 1_000_000 + 1_000_000);
        assert(-1_000_000 < rem <= 0);
    }
    assert(i64::MIN <= q <= i64::MAX);
    let nanos = rem * 1000;
    assert(i32::MIN < nanos < i32::MAX);
    assert(nanos / 1000 == rem);
    assert(nanos % 1000 == 0);
}

/// The items of the frame a handled dnmsg sends, if it sends one.
pub open spec fn sent_items(r: Result<Option<(DownlinkFrame, DnTxedMessage)>, DownlinkError>) -> Option<
    Seq<ItemSpec>,
> {
    match r {
        Ok(Some((f, _))) => Some(item_specs(f.items@)),
        _ => None,
    }
}

/// A handled dnmsg with a valid PDU carries the frame its class's builder
/// gives: Class A (dc 0 or absent) the RX1/RX2 windows, Class B (dc 1) the
/// ping-slot item, Class C (dc 2) the Class C items. A Class B downlink with
/// a known DR is exactly one item at the message's GPS time (GPS-epoch
/// seconds and nanoseconds) on its frequency with its DR's spreading factor
/// and bandwidth; a Class C downlink without `xtime` goes out at once on
/// RX2.
pub proof fn law_dnmsg_follows_class(
    msg: DownlinkMessage,
    drs: Seq<(u32, u32)>,
    tx_power_dbm: i32,
    c: Map<i64, (Seq<u8>, u64)>,
    enabled: bool,
    r: Result<Option<(DownlinkFrame, DnTxedMessage)>, DownlinkError>,
)
    requires
        dnmsg_outcome(msg, drs, tx_power_dbm, c, enabled, r),
        msg.pdu matches Some(p) && hex_decodable(encode_utf8(p@)),
    ensures
        ({
            let phy = hex_decoded(encode_utf8(msg.pdu->0@));
            let dc = match msg.dc { Some(d) => d, None => 0 };
            let dr = match msg.dr { Some(d) => d, None => 0 };
            let freq = match msg.freq { Some(f) => f, None => 0 };
            let gpstime = match msg.gpstime { Some(g) => g, None => 0 };
            &&& (dc == 0 ==> match class_a_spec(msg, drs, tx_power_dbm, c, enabled, phy) {
                Ok(items) => sent_items(r) == Some(items),
                Err(e) => r == Err::<Option<(DownlinkFrame, DnTxedMessage)>, DownlinkError>(e),
            })
            &&& (dc == 1 ==> match class_b_spec(msg, drs, phy) {
                Ok(items) => sent_items(r) == Some(items),
                Err(e) => r == Err::<Option<(DownlinkFrame, DnTxedMessage)>, DownlinkError>(e),
            })
            &&& (dc == 2 ==> sent_items(r) == Some(class_c_spec(msg, drs, tx_power_dbm, c, enabled, phy)))
            &&& (dc > 2 ==> r == Ok::<Option<(DownlinkFrame, DnTxedMessage)>, DownlinkError>(None))
            &&& (dc == 1 && dr_sf_bw(drs, dr) is None ==> r == Err::<
                Option<(DownlinkFrame, DnTxedMessage)>,
                DownlinkError,
            >(DownlinkError::UnknownDr { dr }))
            &&& (dc == 1 && dr_sf_bw(drs, dr) is Some ==> {
                let items = sent_items(r)->0;
                let sb = dr_sf_bw(drs, dr)->0;
                &&& sent_items(r) is Some
                &&& items.len() == 1
                &&& items[0].phy_payload == phy
                &&& items[0].frequency == freq
                &&& items[0].spreading_factor == sb.0
                &&& items[0].bandwidth == sb.1
                &&& items[0].power == 0
                &&& is_gps_epoch_of(items[0].timing, gpstime as int)
            })
            &&& (dc == 2 && msg.xtime is None && msg.rx2_freq is Some && msg.rx2_dr is Some && dr_sf_bw(
                drs,
                msg.rx2_dr->0,
            ) is Some ==> {
                let items = sent_items(r)->0;
                let sb = dr_sf_bw(drs, msg.rx2_dr->0)->0;
                &&& sent_items(r) is Some
                &&& items.len() == 1
                &&& items[0].frequency == msg.rx2_freq->0
                &&& items[0].spreading_factor == sb.0
                &&& items[0].bandwidth == sb.1
                &&& items[0].timing == Timing::Immediately
            })
        }),
{
    let gpstime = match msg.gpstime { Some(g) => g, None => 0 };
    lemma_gps_timing_exact(gpstime);
}
} // verus!
