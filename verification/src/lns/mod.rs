//! LNS connection state: the uplink `xtime` encoding, the cache of uplink
//! contexts, the CUPS-provided TC URI and auth headers, and the outgoing
//! message queue.
use std::collections::HashMap;
use vstd::prelude::*;

use crate::config::Lns;
use downlink::{
    dnmsg_ok, dnmsg_outcome, dnsched_spec, dr_fits, handle_dnmsg, handle_dnsched, item_specs,
    DnTxedMessage, DownlinkError, DownlinkFrame,
};
use messages::{DownlinkMessage, DownlinkSchedule, RouterConfig, TimesyncRequest};
use router_config::{
    plan_channels, router_state_of, to_gateway_configuration, GatewayConfiguration, RouterConfigState,
};
use timesync::{build_timesync_request, update_gps_offset, GpsTimeOffset};
use crate::text::{str_chars, string_from_chars, sub_chars, trim, trim_bounds};
use uplink::{frame_to_json, gps_fits, gps_time_fits, uplink_spec, UplinkError, UplinkFrame, UplinkMessage};

pub mod discovery;
pub mod downlink;
pub mod messages;
pub mod router_config;
pub mod timesync;
pub mod uplink;

verus! {

// ---------------------------------------------------------------------------
// Mesh contexts and the xtime encoding
// ---------------------------------------------------------------------------

/// ChirpStack Gateway Mesh replaces `rx_info.context` on a relayed uplink with
/// `[1,2,3] + relay_id(4) + uplink_id(2)`.
pub open spec fn mesh_context(c: Seq<u8>) -> bool {
    c.len() == 9 && c[0] == 1 && c[1] == 2 && c[2] == 3
}

/// Is the context one that ChirpStack Gateway Mesh put on a relayed uplink?
pub fn is_mesh_context(context: &[u8]) -> (r: bool)
    ensures
        r == mesh_context(context@),
{
    context.len() == 9 && context[0] == 1 && context[1] == 2 && context[2] == 3
}

/// Marks synthesized counters (bit 47). A real concentrator `count_us` is a
/// `u32` and so never reaches bit 47.
pub const SYNTHETIC_XTIME_FLAG: u64 = 0x8000_0000_0000;

/// The low 48 bits of an xtime hold the counter.
pub const XTIME_COUNTER_MASK: u64 = 0xFFFF_FFFF_FFFF;

/// `xtime`: bits [55:48] the session, bits [47:0] the counter.
pub open spec fn pack_xtime(session: u8, counter: u64) -> i64 {
    (((session as u64) << 48u64) | (counter & 0xFFFF_FFFF_FFFFu64)) as i64
}

/// Big-endian `u32` from the first four bytes.
pub open spec fn be32(c: Seq<u8>) -> u32 {
    (c[0] as int * 16777216 + c[1] as int * 65536 + c[2] as int * 256 + c[3] as int) as u32
}

/// A context from which no concentrator counter can be read: mesh-relayed,
/// or shorter than 4 bytes.
pub open spec fn synthetic_context(c: Seq<u8>) -> bool {
    mesh_context(c) || c.len() < 4
}

/// Next synthesized counter: the (47-bit) clock reading if it moved past the
/// previous value, else one more than the previous value.
pub open spec fn next_synthetic(prev: i64, elapsed_us: u64) -> i64 {
    let now = (elapsed_us & 0x7FFF_FFFF_FFFFu64) as i64;
    if now > prev {
        now
    } else {
        (prev + 1) as i64
    }
}

/// The clock and last value behind synthesized xtime counters.
pub struct XtimeClock {
    epoch: std::time::Instant,
    last_synthetic_us: i64,
}

#[verifier::external_type_specification]
#[verifier::external_body]
pub struct ExInstant(std::time::Instant);

/// Reads the monotonic clock (`std::time::Instant::now`).
#[verifier::external_body]
fn instant_now() -> (r: std::time::Instant) {
    std::time::Instant::now()
}

/// Microseconds elapsed since `epoch` (`std::time::Instant::elapsed`), cut
/// to 64 bits. Nothing is claimed of the value: it depends on the clock.
#[verifier::external_body]
fn micros_since(epoch: &std::time::Instant) -> (r: u64) {
    epoch.elapsed().as_micros() as u64
}

impl XtimeClock {
    /// Last synthesized counter.
    pub closed spec fn last(&self) -> i64 {
        self.last_synthetic_us
    }

    /// A clock started now, with no counter synthesized yet.
    pub fn new() -> (r: Self)
        ensures
            r.last() == 0,
    {
        XtimeClock { epoch: instant_now(), last_synthetic_us: 0 }
    }
}

fn xtime_bits(session: u8, counter: u64) -> (r: i64)
    ensures
        r == pack_xtime(session, counter),
{
    let hi: u64 = (session as u64) << 48u64;
    let v: u64 = hi | (counter & XTIME_COUNTER_MASK);
    assert(v < 0x100_0000_0000_0000u64) by (bit_vector)
        requires
            hi == (session as u64) << 48u64,
            v == hi | (counter & 0xFFFF_FFFF_FFFFu64),
            session <= 255,
    ;
    v as i64
}

fn context_counter(context: &[u8]) -> (r: u32)
    requires
        context@.len() >= 4,
    ensures
        r == be32(context@),
{
    let v: u64 = context[0] as u64 * 16777216 + context[1] as u64 * 65536 + context[2] as u64 * 256
        + context[3] as u64;
    v as u32
}

/// Reconstruct the `xtime` for an uplink, given the clock reading.
///
/// A plain concentratord context carries a big-endian `count_us`, used
/// unchanged. A mesh-relayed (or too short) context carries no timestamp, so
/// a strictly increasing counter flagged with bit 47 is synthesized.
pub fn uplink_xtime_at(clock: &mut XtimeClock, session: u8, context: &[u8], elapsed_us: u64) -> (r: i64)
    requires
        synthetic_context(context@) ==> old(clock).last() < i64::MAX,
    ensures
        synthetic_context(context@) ==> {
            &&& final(clock).last() == next_synthetic(old(clock).last(), elapsed_us)
            &&& r == pack_xtime(session, SYNTHETIC_XTIME_FLAG | (final(clock).last() as u64))
        },
        !synthetic_context(context@) ==> {
            &&& final(clock).last() == old(clock).last()
            &&& r == pack_xtime(session, be32(context@) as u64)
        },
{
    let synthetic = is_mesh_context(context) || context.len() < 4;
    if synthetic {
        let now = (elapsed_us & 0x7FFF_FFFF_FFFF) as i64;
        let prev = clock.last_synthetic_us;
        let unique = if now > prev {
            now
        } else {
            prev + 1
        };
        clock.last_synthetic_us = unique;
        xtime_bits(session, SYNTHETIC_XTIME_FLAG | (unique as u64))
    } else {
        xtime_bits(session, context_counter(context) as u64)
    }
}

/// Reconstruct the `xtime` for an uplink, reading the clock for mesh-relayed
/// contexts. Whatever the clock reads, a synthesized counter is larger than
/// the previous one.
pub fn uplink_xtime(clock: &mut XtimeClock, session: u8, context: &[u8]) -> (r: i64)
    requires
        synthetic_context(context@) ==> old(clock).last() < i64::MAX,
    ensures
        synthetic_context(context@) ==> {
            &&& final(clock).last() > old(clock).last()
            &&& r == pack_xtime(session, SYNTHETIC_XTIME_FLAG | (final(clock).last() as u64))
        },
        !synthetic_context(context@) ==> {
            &&& final(clock).last() == old(clock).last()
            &&& r == pack_xtime(session, be32(context@) as u64)
        },
{
    let elapsed = if is_mesh_context(context) || context.len() < 4 {
        micros_since(&clock.epoch)
    } else {
        0
    };
    uplink_xtime_at(clock, session, context, elapsed)
}

/// A real `count_us` never carries the synthetic flag; a synthesized counter
/// always does. So the two numbering spaces cannot collide, and the session
/// and counter can be read back from the xtime.
pub proof fn lemma_xtime_fields(session: u8, counter: u64)
    ensures
        counter <= u32::MAX ==> (pack_xtime(session, counter) as u64) & SYNTHETIC_XTIME_FLAG == 0,
        counter <= u32::MAX ==> ((pack_xtime(session, counter) as u64) & XTIME_COUNTER_MASK)
            == counter,
        (pack_xtime(session, SYNTHETIC_XTIME_FLAG | counter) as u64) & SYNTHETIC_XTIME_FLAG
            == SYNTHETIC_XTIME_FLAG,
        ((pack_xtime(session, counter) as u64) >> 48u64) & 0xFFu64 == session as u64,
        pack_xtime(session, counter) >= 0,
{
    let v: u64 = ((session as u64) << 48u64) | (counter & 0xFFFF_FFFF_FFFFu64);
    assert(v < 0x100_0000_0000_0000u64) by (bit_vector)
        requires
            v == ((session as u64) << 48u64) | (counter & 0xFFFF_FFFF_FFFFu64),
    ;
    assert(pack_xtime(session, counter) as u64 == v);
    assert(counter <= 0xFFFF_FFFFu64 ==> v & 0x8000_0000_0000u64 == 0) by (bit_vector)
        requires
            v == ((session as u64) << 48u64) | (counter & 0xFFFF_FFFF_FFFFu64),
    ;
    assert(counter <= 0xFFFF_FFFFu64 ==> v & 0xFFFF_FFFF_FFFFu64 == counter) by (bit_vector)
        requires
            v == ((session as u64) << 48u64) | (counter & 0xFFFF_FFFF_FFFFu64),
    ;
    assert((v >> 48u64) & 0xFFu64 == session as u64) by (bit_vector)
        requires
            v == ((session as u64) << 48u64) | (counter & 0xFFFF_FFFF_FFFFu64),
    ;
    let w: u64 = ((session as u64) << 48u64) | ((0x8000_0000_0000u64 | counter)
        & 0xFFFF_FFFF_FFFFu64);
    assert(w < 0x100_0000_0000_0000u64 && w & 0x8000_0000_0000u64 == 0x8000_0000_0000u64)
        by (bit_vector)
        requires
            w == ((session as u64) << 48u64) | ((0x8000_0000_0000u64 | counter)
                & 0xFFFF_FFFF_FFFFu64),
    ;
    assert(pack_xtime(session, SYNTHETIC_XTIME_FLAG | counter) as u64 == w);
}

/// Synthesized xtimes keep their order: the clock's counter only grows, so
/// an xtime synthesized earlier has a smaller counter `c1` than a later one
/// `c2`. The later xtime carries the synthetic flag and its own session, its
/// 48-bit counter field is the larger, within one session it is the larger
/// outright, and it equals no xtime of a plain 4-byte context. This holds
/// while the counter stays inside its 47 bits.
pub proof fn law_synthetic_xtimes_ordered(s1: u8, c1: u64, s2: u8, c2: u64, s3: u8, plain: u64)
    requires
        c1 < c2 < 0x8000_0000_0000,
        plain <= u32::MAX,
    ensures
        ({
            let a = pack_xtime(s1, SYNTHETIC_XTIME_FLAG | c1);
            let b = pack_xtime(s2, SYNTHETIC_XTIME_FLAG | c2);
            &&& (b as u64) & SYNTHETIC_XTIME_FLAG == SYNTHETIC_XTIME_FLAG
            &&& ((b as u64) >> 48u64) & 0xFFu64 == s2 as u64
            &&& (b as u64) & XTIME_COUNTER_MASK > (a as u64) & XTIME_COUNTER_MASK
            &&& s1 == s2 ==> b > a
            &&& b != pack_xtime(s3, plain)
        }),
{
    lemma_xtime_fields(s2, SYNTHETIC_XTIME_FLAG | c2);
    lemma_xtime_fields(s2, c2);
    lemma_xtime_fields(s3, plain);
    lemma_xtime_fields(s1, SYNTHETIC_XTIME_FLAG | c1);
    let t1 = s1 as u64;
    let t2 = s2 as u64;
    let pa: u64 = (t1 << 48u64) | ((0x8000_0000_0000u64 | c1) & 0xFFFF_FFFF_FFFFu64);
    let pb: u64 = (t2 << 48u64) | ((0x8000_0000_0000u64 | c2) & 0xFFFF_FFFF_FFFFu64);
    assert(pa < 0x100_0000_0000_0000u64 && pb < 0x100_0000_0000_0000u64
        && pb & 0xFFFF_FFFF_FFFFu64 > pa & 0xFFFF_FFFF_FFFFu64 && (t1 == t2 ==> pa < pb)) by (bit_vector)
        requires
            c1 < c2,
            c2 < 0x8000_0000_0000u64,
            t1 <= 255,
            t2 <= 255,
            pa == (t1 << 48u64) | ((0x8000_0000_0000u64 | c1) & 0xFFFF_FFFF_FFFFu64),
            pb == (t2 << 48u64) | ((0x8000_0000_0000u64 | c2) & 0xFFFF_FFFF_FFFFu64),
    ;
    let a = pack_xtime(s1, SYNTHETIC_XTIME_FLAG | c1);
    let b = pack_xtime(s2, SYNTHETIC_XTIME_FLAG | c2);
    assert(a as u64 == pa);
    assert(b as u64 == pb);
    assert(a == pa as int && b == pb as int);
    assert((b as u64) & XTIME_COUNTER_MASK > (a as u64) & XTIME_COUNTER_MASK);
    assert(s1 == s2 ==> b > a);
    assert(b != pack_xtime(s3, plain)) by {
        assert((b as u64) & SYNTHETIC_XTIME_FLAG == SYNTHETIC_XTIME_FLAG);
        assert((pack_xtime(s3, plain) as u64) & SYNTHETIC_XTIME_FLAG == 0);
    }
}

/// Two synthesized xtimes for one session, taken one after the other, are
/// strictly increasing, as long as the counter stays inside its 47 bits.
pub proof fn lemma_synthetic_xtime_increases(session: u8, prev: i64, first_us: u64, second_us: u64)
    requires
        0 <= prev,
        prev + 2 < 0x8000_0000_0000,
        (first_us & 0x7FFF_FFFF_FFFFu64) + 1 < 0x8000_0000_0000,
    ensures
        ({
            let a = next_synthetic(prev, first_us);
            let b = next_synthetic(a, second_us);
            &&& a > prev
            &&& b > a
            &&& pack_xtime(session, SYNTHETIC_XTIME_FLAG | (b as u64)) > pack_xtime(
                session,
                SYNTHETIC_XTIME_FLAG | (a as u64),
            )
        }),
{
    let n1 = first_us & 0x7FFF_FFFF_FFFFu64;
    let n2 = second_us & 0x7FFF_FFFF_FFFFu64;
    assert(n2 < 0x8000_0000_0000u64) by (bit_vector)
        requires
            n2 == second_us & 0x7FFF_FFFF_FFFFu64,
    ;
    let a = next_synthetic(prev, first_us);
    let b = next_synthetic(a, second_us);
    assert(a < 0x7FFF_FFFF_FFFF);
    assert(b <= 0x7FFF_FFFF_FFFF);
    let au = a as u64;
    let bu = b as u64;
    assert(au < bu);
    let s = session as u64;
    let pa: u64 = (s << 48u64) | ((0x8000_0000_0000u64 | au) & 0xFFFF_FFFF_FFFFu64);
    let pb: u64 = (s << 48u64) | ((0x8000_0000_0000u64 | bu) & 0xFFFF_FFFF_FFFFu64);
    assert(pa < pb && pb < 0x100_0000_0000_0000u64) by (bit_vector)
        requires
            au < bu,
            bu <= 0x7FFF_FFFF_FFFFu64,
            s <= 255,
            pa == (s << 48u64) | ((0x8000_0000_0000u64 | au) & 0xFFFF_FFFF_FFFFu64),
            pb == (s << 48u64) | ((0x8000_0000_0000u64 | bu) & 0xFFFF_FFFF_FFFFu64),
    ;
}

// ---------------------------------------------------------------------------
// Context cache
// ---------------------------------------------------------------------------

/// How long a cached context is kept: 60 s, in nanoseconds.
pub const CONTEXT_CACHE_TTL_NS: u64 = 60_000_000_000;

/// An entry inserted at `inserted_ns` is still fresh at `now_ns`: less than
/// the TTL has passed (no time has passed if the clock reads earlier).
pub open spec fn fresh(inserted_ns: u64, now_ns: u64) -> bool {
    now_ns < inserted_ns + CONTEXT_CACHE_TTL_NS
}

/// Cache of full `rx_info.context` blobs keyed by xtime, with the time of
/// insertion, and whether lookups are enabled.
pub struct ContextCache {
    enabled: bool,
    entries: HashMap<i64, (Vec<u8>, u64)>,
}

impl ContextCache {
    /// What the cache holds: xtime to (context, insertion time).
    pub closed spec fn view(&self) -> Map<i64, (Seq<u8>, u64)> {
        self.entries@.map_values(|e: (Vec<u8>, u64)| (e.0@, e.1))
    }

    /// Whether lookups return cached contexts.
    pub closed spec fn is_enabled(&self) -> bool {
        self.enabled
    }

    /// An empty cache; lookups are enabled when `enabled` is set.
    pub fn new(enabled: bool) -> (r: Self)
        ensures
            r@ == Map::<i64, (Seq<u8>, u64)>::empty(),
            r.is_enabled() == enabled,
    {
        let r = ContextCache { enabled, entries: HashMap::new() };
        assert(r@ =~= Map::<i64, (Seq<u8>, u64)>::empty());
        r
    }

    /// Turns lookups on or off.
    pub fn set_enabled(&mut self, enabled: bool)
        ensures
            final(self)@ == old(self)@,
            final(self).is_enabled() == enabled,
    {
        self.enabled = enabled;
    }

    /// Number of cached entries.
    pub fn len(&self) -> (r: usize)
        ensures
            r == self@.dom().len(),
    {
        broadcast use vstd::std_specs::hash::group_hash_axioms;

        assert(self@.dom() =~= self.entries@.dom());
        self.entries.len()
    }
}

pub(crate) fn copy_vec_u8(v: &Vec<u8>) -> (r: Vec<u8>)
    ensures
        r@ == v@,
{
    vstd::slice::slice_to_vec(v.as_slice())
}

/// Stores a context blob at `now_ns` and returns the resulting number of
/// cached entries.
pub fn cache_context(cache: &mut ContextCache, xtime: i64, context: Vec<u8>, now_ns: u64) -> (r: usize)
    ensures
        final(cache)@ == old(cache)@.insert(xtime, (context@, now_ns)),
        final(cache).is_enabled() == old(cache).is_enabled(),
        r == final(cache)@.dom().len(),
{
    broadcast use vstd::std_specs::hash::group_hash_axioms;

    let ghost ctx = context@;
    cache.entries.insert(xtime, (context, now_ns));
    assert(cache@ =~= old(cache)@.insert(xtime, (ctx, now_ns)));
    cache.len()
}

/// What a lookup gives: the cached context, when lookups are enabled and
/// the xtime is cached.
pub open spec fn cached_lookup(c: Map<i64, (Seq<u8>, u64)>, enabled: bool, xtime: i64) -> Option<Seq<u8>> {
    if enabled && c.contains_key(xtime) {
        Some(c[xtime].0)
    } else {
        None
    }
}

/// The cached context for an xtime, if caching is enabled and it is cached.
pub fn get_cached_context(cache: &ContextCache, xtime: i64) -> (r: Option<Vec<u8>>)
    ensures
        r.deep_view() == cached_lookup(cache@, cache.is_enabled(), xtime),
{
    broadcast use vstd::std_specs::hash::group_hash_axioms;

    if !cache.enabled {
        return None;
    }
    match cache.entries.get(&xtime) {
        Some(e) => Some(copy_vec_u8(&e.0)),
        None => None,
    }
}

/// Drops the entries that are no longer fresh at `now_ns`.
pub fn sweep_context_cache(cache: &mut ContextCache, now_ns: u64)
    ensures
        final(cache)@ == old(cache)@.restrict(
            old(cache)@.dom().filter(|k: i64| fresh(old(cache)@[k].1, now_ns)),
        ),
        final(cache).is_enabled() == old(cache).is_enabled(),
{
    broadcast use vstd::std_specs::hash::group_hash_axioms;

    let ghost old_m = cache.entries@;
    let mut keys: Vec<i64> = Vec::new();
    for k in it: cache.entries.keys()
        invariant
            old_m == cache.entries@,
            it.seq() == vstd::std_specs::iter::IteratorSpec::remaining(&vstd::std_specs::hash::spec_keys_iter(&cache.entries)),
            keys@ == it.seq().unref().take(it.index() as int),
    {
        keys.push(*k);
    }
    proof {
        let ghost all = vstd::std_specs::iter::IteratorSpec::remaining(&vstd::std_specs::hash::spec_keys_iter(&cache.entries));
        assert(keys@ =~= all.unref());
        assert(keys@.to_set() =~= old_m.dom());
    }
    let n = keys.len();
    let mut i: usize = 0;
    while i < n
        invariant
            n == keys@.len(),
            i <= n,
            keys@.to_set() == old_m.dom(),
            forall|k: i64| #[trigger] cache.entries@.contains_key(k) <==> old_m.contains_key(k) && (
                keys@.take(i as int).contains(k) ==> fresh(old_m[k].1, now_ns)),
            forall|k: i64| #[trigger] cache.entries@.contains_key(k) ==> cache.entries@[k] == old_m[k],
            cache.enabled == old(cache).enabled,
        decreases n - i,
    {
        let k = keys[i];
        let ghost before = cache.entries@;
        let stale = match cache.entries.get(&k) {
            Some(e) => e.1 <= u64::MAX - CONTEXT_CACHE_TTL_NS && now_ns >= e.1 + CONTEXT_CACHE_TTL_NS,
            None => false,
        };
        if stale {
            cache.entries.remove(&k);
        }
        proof {
            let prev = keys@.take(i as int);
            assert(keys@.take(i + 1) =~= prev.push(k));
            assert forall|kk: i64| #[trigger] cache.entries@.contains_key(kk) <==> old_m.contains_key(kk) && (
                keys@.take(i + 1).contains(kk) ==> fresh(old_m[kk].1, now_ns)) by {
                if kk != k {
                    if prev.push(k).contains(kk) {
                        let j = choose|j: int| 0 <= j < prev.push(k).len() && prev.push(k)[j] == kk;
                        assert(prev[j] == kk);
                    }
                    if prev.contains(kk) {
                        let j = choose|j: int| 0 <= j < prev.len() && prev[j] == kk;
                        assert(prev.push(k)[j] == kk);
                    }
                } else {
                    assert(prev.push(k)[prev.len() as int] == k);
                    if before.contains_key(k) {
                        assert(before[k] == old_m[k]);
                    }
                }
            }
        }
        i = i + 1;
    }
    proof {
        assert(keys@.take(n as int) =~= keys@);
        assert forall|k: i64| old_m.contains_key(k) implies keys@.contains(k) by {
            assert(keys@.to_set().contains(k));
        }
    }
    assert(cache@ =~= old(cache)@.restrict(old(cache)@.dom().filter(|k: i64| fresh(old(cache)@[k].1, now_ns))));
}

/// Empties the cache.
pub fn clear_context_cache(cache: &mut ContextCache)
    ensures
        final(cache)@ == Map::<i64, (Seq<u8>, u64)>::empty(),
        final(cache).is_enabled() == old(cache).is_enabled(),
{
    cache.entries.clear();
    assert(cache@ =~= Map::<i64, (Seq<u8>, u64)>::empty());
}

// ---------------------------------------------------------------------------
// Connection state
// ---------------------------------------------------------------------------

#[verifier::external_type_specification]
#[verifier::external_body]
#[verifier::reject_recursive_types(T)]
pub struct ExUnboundedSender<T>(tokio::sync::mpsc::UnboundedSender<T>);

/// Queues a text message for the WebSocket writer
/// (`tokio::sync::mpsc::UnboundedSender::send`). It fails once the writer has
/// gone away, which nothing here can know, so whether it fails is not
/// claimed. What is claimed: the message handed to `send` is `msg` (a ghost
/// copy of it comes back on success), and on failure the channel hands back
/// that very message (`SendError(message)`).
#[verifier::external_body]
fn queue_message(sender: &tokio::sync::mpsc::UnboundedSender<String>, msg: String) -> (r: Result<
    Ghost<Seq<char>>,
    String,
>)
    ensures
        r matches Ok(sent) ==> sent@ == msg@,
        r matches Err(unsent) ==> unsent@ == msg@,
{
    let sent = Ghost(msg@);
    match sender.send(msg) {
        Ok(()) => Ok(sent),
        Err(e) => Err(e.0),
    }
}

/// The state shared by the LNS connection tasks.
pub struct LnsState {
    /// Sender for outgoing WebSocket text messages, while connected.
    pub ws_sender: Option<tokio::sync::mpsc::UnboundedSender<String>>,
    /// Session counter, incremented on each connection attempt.
    pub session: u8,
    /// Current router_config state (data rate table, filters, etc.).
    pub router_config: Option<RouterConfigState>,
    /// TC URI provided by CUPS.
    pub cups_tc_uri: Option<String>,
    /// Auth headers parsed from the TC credential blob provided by CUPS.
    pub cups_tc_auth_headers: Vec<(String, String)>,
    /// Cache of uplink contexts.
    pub context_cache: ContextCache,
    /// Source of synthesized xtime counters.
    pub xtime_clock: XtimeClock,
    /// GPS time offset from timesync.
    pub gps_offset: GpsTimeOffset,
}

/// A message could not be handed to the WebSocket writer; the message is
/// given back.
#[derive(Debug, Clone, PartialEq, Eq)]
pub enum LnsError {
    SendFailed { unsent: String },
}

impl LnsState {
    /// Disconnected, no router_config, nothing from CUPS, an empty context
    /// cache whose lookups are enabled when `context_caching` is set.
    pub fn new(context_caching: bool) -> (r: Self)
        ensures
            r.ws_sender is None,
            r.session == 0,
            r.router_config is None,
            r.cups_tc_uri is None,
            r.cups_tc_auth_headers@.len() == 0,
            r.context_cache@ == Map::<i64, (Seq<u8>, u64)>::empty(),
            r.context_cache.is_enabled() == context_caching,
            r.xtime_clock.last() == 0,
            r.gps_offset.offset is None,
    {
        LnsState {
            ws_sender: None,
            session: 0,
            router_config: None,
            cups_tc_uri: None,
            cups_tc_auth_headers: Vec::new(),
            context_cache: ContextCache::new(context_caching),
            xtime_clock: XtimeClock::new(),
            gps_offset: GpsTimeOffset::new(),
        }
    }
}

/// Record the TC URI provided by CUPS.
pub fn set_cups_tc_uri(state: &mut LnsState, uri: String)
    ensures
        *final(state) == (LnsState { cups_tc_uri: Some(uri), ..*old(state) }),
{
    state.cups_tc_uri = Some(uri);
}

/// Record the auth headers provided by CUPS.
pub fn set_cups_tc_auth_headers(state: &mut LnsState, headers: Vec<(String, String)>)
    ensures
        *final(state) == (LnsState { cups_tc_auth_headers: headers, ..*old(state) }),
{
    state.cups_tc_auth_headers = headers;
}

/// What became of a message given to [`send_ws_message`].
pub enum SendOutcome {
    /// No connection: the message was dropped.
    Dropped,
    /// The message was handed to the writer; `sent` is what was handed over.
    Queued { sent: Ghost<Seq<char>> },
}

/// Send a text message to the LNS via the WebSocket connection; without a
/// connection the message is dropped. The message is handed to the writer
/// unchanged: when the writer is gone, the error gives that same message
/// back.
pub fn send_ws_message(state: &LnsState, msg: String) -> (r: Result<SendOutcome, LnsError>)
    ensures
        state.ws_sender is None <==> r matches Ok(SendOutcome::Dropped),
        r matches Ok(SendOutcome::Queued { sent }) ==> sent@ == msg@,
        r matches Err(LnsError::SendFailed { unsent }) ==> state.ws_sender is Some && unsent@ == msg@,
{
    match &state.ws_sender {
        None => Ok(SendOutcome::Dropped),
        Some(sender) => match queue_message(sender, msg) {
            Ok(sent) => Ok(SendOutcome::Queued { sent }),
            Err(unsent) => Err(LnsError::SendFailed { unsent }),
        },
    }
}

/// A new connection attempt: the session counter moves on (wrapping).
pub fn start_session(state: &mut LnsState)
    ensures
        *final(state) == (LnsState {
            session: if old(state).session == 255 { 0 } else { (old(state).session + 1) as u8 },
            ..*old(state)
        }),
{
    state.session = state.session.wrapping_add(1);
}

/// A connection ended: no sender and no router_config until the next one.
pub fn end_session(state: &mut LnsState)
    ensures
        *final(state) == (LnsState { ws_sender: None, router_config: None, ..*old(state) }),
{
    state.ws_sender = None;
    state.router_config = None;
}

/// Where router discovery starts: the TC URI from CUPS when CUPS has
/// provided one (non-empty), else the explicit discovery endpoint when set,
/// else the configured LNS server.
pub fn discovery_base(lns: &Lns, state: &LnsState) -> (r: String)
    ensures
        r@ == (match state.cups_tc_uri {
            Some(u) if u@.len() > 0 => u@,
            _ => if lns.discovery_endpoint@.len() > 0 {
                lns.discovery_endpoint@
            } else {
                lns.server@
            },
        }),
{
    if let Some(u) = &state.cups_tc_uri {
        if !u.as_str().is_empty() {
            return u.clone();
        }
    }
    if !lns.discovery_endpoint.as_str().is_empty() {
        lns.discovery_endpoint.clone()
    } else {
        lns.server.clone()
    }
}

/// Token auth from the config: no client certificate, but a key file, which
/// then holds the API token.
pub open spec fn token_auth(lns: &Lns) -> bool {
    lns.tls_cert@.len() == 0 && lns.tls_key@.len() > 0
}

/// Whether the `tls_key` file holds an API token to send as a bearer token.
pub fn uses_token_auth(lns: &Lns) -> (r: bool)
    ensures
        r == token_auth(lns),
{
    lns.tls_cert.as_str().is_empty() && !lns.tls_key.as_str().is_empty()
}

fn copy_headers(h: &Vec<(String, String)>) -> (r: Vec<(String, String)>)
    ensures
        r@.len() == h@.len(),
        forall|i: int| #![trigger r@[i]] 0 <= i < h@.len() ==> r@[i].0@ == h@[i].0@ && r@[i].1@ == h@[i].1@,
{
    let mut out: Vec<(String, String)> = Vec::new();
    let n = h.len();
    let mut i: usize = 0;
    while i < n
        invariant
            n == h@.len(),
            i <= n,
            out@.len() == i,
            forall|j: int| #![trigger out@[j]] 0 <= j < i ==> out@[j].0@ == h@[j].0@ && out@[j].1@ == h@[j].1@,
        decreases n - i,
    {
        out.push((h[i].0.clone(), h[i].1.clone()));
        i = i + 1;
    }
    out
}

/// Auth headers for discovery and the WebSocket: in token mode
/// `Authorization: Bearer <token>` with the token file's content trimmed;
/// otherwise the CUPS-provided headers.
pub fn parse_auth_token(lns: &Lns, token_file: &str, cups_headers: &Vec<(String, String)>) -> (r: Vec<
    (String, String),
>)
    ensures
        token_auth(lns) ==> r@.len() == 1 && r@[0].0@ == "Authorization"@ && r@[0].1@ == "Bearer "@
            + trim(token_file@),
        !token_auth(lns) ==> r@.len() == cups_headers@.len() && forall|i: int|
            #![trigger r@[i]]
            0 <= i < r@.len() ==> r@[i].0@ == cups_headers@[i].0@ && r@[i].1@ == cups_headers@[i].1@,
{
    if uses_token_auth(lns) {
        let chars = str_chars(token_file);
        let (a, b) = trim_bounds(&chars);
        let token = string_from_chars(&sub_chars(&chars, a, b));
        let mut value = "Bearer ".to_string();
        value.append(token.as_str());
        let mut headers: Vec<(String, String)> = Vec::new();
        headers.push(("Authorization".to_string(), value));
        headers
    } else {
        copy_headers(cups_headers)
    }
}

/// Take a router_config from the LNS: its state is kept for the uplinks and
/// downlinks that follow, and the channel plan it asks for is returned to be
/// applied.
pub fn on_router_config(state: &mut LnsState, rc: &RouterConfig) -> (r: GatewayConfiguration)
    ensures
        final(state).router_config matches Some(s) && router_state_of(*rc, s),
        r.channels_spec() == plan_channels(rc.sx1301_conf@),
        *final(state) == (LnsState { router_config: final(state).router_config, ..*old(state) }),
{
    state.router_config = Some(RouterConfigState::from_router_config(rc));
    to_gateway_configuration(rc)
}

/// Take a dnmsg from the LNS: without a router_config it is dropped
/// (`None`); otherwise it is handled with the current DR table and context
/// cache.
pub fn on_dnmsg(state: &LnsState, msg: &DownlinkMessage) -> (r: Option<
    Result<Option<(DownlinkFrame, DnTxedMessage)>, DownlinkError>,
>)
    requires
        state.router_config matches Some(rc) ==> dnmsg_ok(*msg, rc.drs@),
    ensures
        state.router_config is None ==> r is None,
        state.router_config matches Some(rc) ==> (r matches Some(res) && dnmsg_outcome(
            *msg,
            rc.drs@,
            rc.tx_power_dbm,
            state.context_cache@,
            state.context_cache.is_enabled(),
            res,
        )),
{
    match &state.router_config {
        None => None,
        Some(rc) => Some(handle_dnmsg(msg, rc, &state.context_cache)),
    }
}

/// Take a dnsched from the LNS: without a router_config it is dropped
/// (`None`); otherwise its frames and the error that stopped it, if any.
pub fn on_dnsched(state: &LnsState, msg: &DownlinkSchedule) -> (r: Option<
    (Vec<DownlinkFrame>, Option<DownlinkError>),
>)
    requires
        state.router_config matches Some(rc) ==> forall|k: int|
            0 <= k < msg.schedule@.len() ==> dr_fits(
                rc.drs@,
                Some(match #[trigger] msg.schedule@[k].dr { Some(d) => d, None => 0 }),
            ),
    ensures
        state.router_config is None ==> r is None,
        state.router_config matches Some(rc) ==> (r matches Some(res) && res.1 == dnsched_spec(
            msg.schedule@,
            rc.drs@,
        ).1 && res.0@.len() == dnsched_spec(msg.schedule@, rc.drs@).0.len() && forall|k: int|
            0 <= k < res.0@.len() ==> item_specs(#[trigger] res.0@[k].items@) == dnsched_spec(
                msg.schedule@,
                rc.drs@,
            ).0[k] && res.0@[k].downlink_id == 0),
{
    match &state.router_config {
        None => None,
        Some(rc) => Some(handle_dnsched(msg, rc)),
    }
}

/// Take a timesync message from the LNS: when it carries both an xtime and
/// a GPS time, the GPS time offset is set from them; nothing else of the
/// state changes. The reply to queue is a timesync request echoing its
/// `txtime`, when it has one.
pub fn on_timesync(state: &mut LnsState, txtime: Option<i64>, xtime: Option<i64>, gpstime: Option<i64>) -> (r:
    Option<TimesyncRequest>)
    requires
        xtime matches Some(x) && gpstime matches Some(g) ==> i64::MIN <= g - x <= i64::MAX,
    ensures
        *final(state) == (LnsState {
            gps_offset: match (xtime, gpstime) {
                (Some(x), Some(g)) => GpsTimeOffset { offset: Some((g - x) as i64) },
                _ => old(state).gps_offset,
            },
            ..*old(state)
        }),
        txtime is None ==> r is None,
        txtime matches Some(t) ==> (r matches Some(req) && req.msgtype@ == "timesync"@ && req.txtime == t),
{
    if let (Some(x), Some(g)) = (xtime, gpstime) {
        update_gps_offset(&mut state.gps_offset, x, g);
    }
    match txtime {
        Some(t) => Some(build_timesync_request(t)),
        None => None,
    }
}

/// What sending an uplink may require: the DR table can be indexed by `i32`,
/// the GPS time fits, and the synthetic counter can still move on.
pub open spec fn uplink_ok(state: &LnsState, frame: &UplinkFrame) -> bool {
    &&& (state.router_config matches Some(rc) ==> rc.drs@.len() <= i32::MAX)
    &&& (frame.rx_info matches Some(rx) ==> gps_fits(rx))
    &&& state.xtime_clock.last() < i64::MAX
}

/// Whether [`prepare_uplink`] can take this uplink in this state.
pub fn uplink_acceptable(state: &LnsState, frame: &UplinkFrame) -> (r: bool)
    ensures
        r == uplink_ok(state, frame),
{
    let drs_ok = match &state.router_config {
        Some(rc) => rc.drs.len() <= 0x7FFF_FFFF,
        None => true,
    };
    let gps_ok = match &frame.rx_info {
        Some(rx) => gps_time_fits(rx),
        None => true,
    };
    drs_ok && gps_ok && state.xtime_clock.last_synthetic_us < i64::MAX
}

/// The context an uplink carries (empty without rx_info).
pub open spec fn frame_context(frame: &UplinkFrame) -> Seq<u8> {
    match frame.rx_info {
        Some(rx) => rx.context@,
        None => Seq::empty(),
    }
}

/// The xtime of an uplink with context `ctx` in `session`, given the
/// synthetic counter after it was taken.
pub open spec fn uplink_xtime_value(session: u8, ctx: Seq<u8>, last: i64) -> i64 {
    if synthetic_context(ctx) {
        pack_xtime(session, SYNTHETIC_XTIME_FLAG | (last as u64))
    } else {
        pack_xtime(session, be32(ctx) as u64)
    }
}

/// Prepare an uplink for the LNS. Without a connection or a router_config
/// the uplink is dropped (`Ok(None)`). Otherwise its xtime is reconstructed,
/// its context is cached under that xtime (when caching is enabled and the
/// context is not empty), and the message is built; the xtime is returned
/// with it.
pub fn prepare_uplink(state: &mut LnsState, frame: &UplinkFrame, now_ns: u64) -> (r: Result<
    Option<(i64, UplinkMessage)>,
    UplinkError,
>)
    requires
        uplink_ok(old(state), frame),
    ensures
        old(state).ws_sender is None || old(state).router_config is None ==> {
            &&& r matches Ok(None)
            &&& final(state).context_cache@ == old(state).context_cache@
        },
        old(state).ws_sender is Some && old(state).router_config is Some ==> {
            let rc = old(state).router_config->0;
            let ctx = frame_context(frame);
            let x = uplink_xtime_value(old(state).session, ctx, final(state).xtime_clock.last());
            &&& synthetic_context(ctx) ==> final(state).xtime_clock.last() > old(
                state,
            ).xtime_clock.last()
            &&& !synthetic_context(ctx) ==> final(state).xtime_clock.last() == old(
                state,
            ).xtime_clock.last()
            &&& final(state).context_cache@ == if old(state).context_cache.is_enabled() && ctx.len()
                > 0 {
                old(state).context_cache@.insert(x, (ctx, now_ns))
            } else {
                old(state).context_cache@
            }
            &&& match uplink_spec(*frame, rc.drs@, x) {
                Ok(m) => r matches Ok(Some((y, msg))) && y == x && msg.spec() == m,
                Err(e) => r == Err::<Option<(i64, UplinkMessage)>, UplinkError>(e),
            }
        },
        final(state).session == old(state).session,
        final(state).context_cache.is_enabled() == old(state).context_cache.is_enabled(),
        final(state).ws_sender == old(state).ws_sender,
        final(state).router_config == old(state).router_config,
        final(state).cups_tc_uri == old(state).cups_tc_uri,
        final(state).cups_tc_auth_headers == old(state).cups_tc_auth_headers,
        final(state).gps_offset == old(state).gps_offset,
{
    if state.ws_sender.is_none() {
        return Ok(None);
    }
    let rc = match &state.router_config {
        Some(rc) => rc.clone(),
        None => return Ok(None),
    };
    let empty: Vec<u8> = Vec::new();
    let context: &[u8] = match &frame.rx_info {
        Some(rx) => rx.context.as_slice(),
        None => empty.as_slice(),
    };
    let session = state.session;
    let xtime = uplink_xtime(&mut state.xtime_clock, session, context);
    if state.context_cache.enabled && context.len() > 0 {
        let _entries = cache_context(
            &mut state.context_cache,
            xtime,
            vstd::slice::slice_to_vec(context),
            now_ns,
        );
    }
    match frame_to_json(frame, &rc, xtime) {
        Ok(m) => Ok(Some((xtime, m))),
        Err(e) => Err(e),
    }
}

// ---------------------------------------------------------------------------
// Laws
// ---------------------------------------------------------------------------

/// A context cached under an xtime is what a lookup of that xtime returns
/// while caching is enabled (and nothing while it is disabled); caching it
/// leaves the lookups of every other xtime as they were.
pub proof fn law_cache_read_after_write(
    c: Map<i64, (Seq<u8>, u64)>,
    enabled: bool,
    xtime: i64,
    context: Seq<u8>,
    now_ns: u64,
    other: i64,
)
    ensures
        cached_lookup(c.insert(xtime, (context, now_ns)), enabled, xtime) == (if enabled {
            Some(context)
        } else {
            None
        }),
        other != xtime ==> cached_lookup(c.insert(xtime, (context, now_ns)), enabled, other)
            == cached_lookup(c, enabled, other),
{
}

/// After a sweep at `now_ns`, an xtime is still found exactly when it was
/// found before and its entry is younger than the TTL; what is found is
/// unchanged.
pub proof fn law_sweep_keeps_fresh_entries(
    c: Map<i64, (Seq<u8>, u64)>,
    enabled: bool,
    now_ns: u64,
    xtime: i64,
)
    requires
        c.dom().finite(),
    ensures
        ({
            let swept = c.restrict(c.dom().filter(|k: i64| fresh(c[k].1, now_ns)));
            cached_lookup(swept, enabled, xtime) == (if c.contains_key(xtime) && fresh(
                c[xtime].1,
                now_ns,
            ) {
                cached_lookup(c, enabled, xtime)
            } else {
                None
            })
        }),
{
}

/// Caching then sweeping: an entry inserted at `t` survives a sweep at
/// `now` when less than 60 s have passed, and is gone after that.
pub proof fn law_entry_lifetime(c: Map<i64, (Seq<u8>, u64)>, xtime: i64, context: Seq<u8>, t: u64, now_ns: u64)
    requires
        t <= now_ns,
    ensures
        ({
            let m = c.insert(xtime, (context, t));
            let swept = m.restrict(m.dom().filter(|k: i64| fresh(m[k].1, now_ns)));
            &&& now_ns - t < CONTEXT_CACHE_TTL_NS ==> cached_lookup(swept, true, xtime) == Some(context)
            &&& now_ns - t >= CONTEXT_CACHE_TTL_NS ==> cached_lookup(swept, true, xtime) is None
        }),
{
}

proof fn lemma_be_bytes_be32(context: Seq<u8>)
    requires
        context.len() == 4,
    ensures
        downlink::be_bytes(be32(context)) == context,
{
    let c0 = context[0] as int;
    let c1 = context[1] as int;
    let c2 = context[2] as int;
    let c3 = context[3] as int;
    let v = c0 * 16777216 + c1 * 65536 + c2 * 256 + c3;
    assert(0 <= v < 0x1_0000_0000) by (nonlinear_arith)
        requires
            v == c0 * 16777216 + c1 * 65536 + c2 * 256 + c3,
            0 <= c0 < 256,
            0 <= c1 < 256,
            0 <= c2 < 256,
            0 <= c3 < 256,
    ;
    let b = be32(context);
    assert(b as int == v);
    assert(v / 16777216 == c0 && v / 65536 % 256 == c1 && v / 256 % 256 == c2 && v % 256 == c3)
        by (nonlinear_arith)
        requires
            v == c0 * 16777216 + c1 * 65536 + c2 * 256 + c3,
            0 <= c0 < 256,
            0 <= c1 < 256,
            0 <= c2 < 256,
            0 <= c3 < 256,
    ;
    assert(downlink::be_bytes(b) =~= context);
}

/// The xtime reported for an uplink with a plain 4-byte context keeps the
/// concentrator counter: the low 32 bits of its counter field give the
/// context back, byte for byte, as the fallback context of a downlink.
pub proof fn law_direct_context_round_trip(session: u8, context: Seq<u8>)
    requires
        context.len() == 4,
    ensures
        ({
            let x = pack_xtime(session, be32(context) as u64);
            &&& (x & 0xFFFF_FFFF_FFFFi64) as u32 == be32(context)
            &&& downlink::be_bytes((x & 0xFFFF_FFFF_FFFFi64) as u32) == context
        }),
{
    let c = be32(context) as u64;
    let x = pack_xtime(session, c);
    lemma_xtime_fields(session, c);
    let v = x as u64;
    assert(x >= 0);
    assert((x & 0xFFFF_FFFF_FFFFi64) as u64 == v & 0xFFFF_FFFF_FFFFu64) by (bit_vector)
        requires
            x >= 0,
            v == x as u64,
    ;
    assert((x & 0xFFFF_FFFF_FFFFi64) as u32 == be32(context));
    lemma_be_bytes_be32(context);
}

} // verus!
