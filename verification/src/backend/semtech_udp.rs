//! Decisions of the Semtech UDP packet-forwarder backend: which packets are
//! which, which uplinks are forwarded, and how a TX acknowledgement moves a
//! downlink on to its next attempt.
use std::collections::HashMap;
use vstd::prelude::*;

use crate::config::Filters;
use crate::hexfmt::{hex_encode, hex_lower};
use crate::lns::copy_vec_u8;
use crate::lns::downlink::{item_specs, DownlinkFrame, DownlinkFrameItem, DownlinkTxInfo, ItemSpec};

verus! {

/// Kind of a packet received from the packet forwarder (byte 3 of the
/// header).
#[derive(Debug, Clone, Copy, PartialEq, Eq, Structural)]
pub enum PacketKind {
    /// Fewer than 4 bytes.
    TooShort,
    PushData,
    PullData,
    TxAck,
    Unknown { cid: u8 },
}

/// The kind of a received packet.
pub fn classify_packet(data: &[u8]) -> (r: PacketKind)
    ensures
        data@.len() < 4 ==> r == PacketKind::TooShort,
        data@.len() >= 4 ==> r == (if data@[3] == 0 {
            PacketKind::PushData
        } else if data@[3] == 2 {
            PacketKind::PullData
        } else if data@[3] == 5 {
            PacketKind::TxAck
        } else {
            PacketKind::Unknown { cid: data@[3] }
        }),
{
    if data.len() < 4 {
        return PacketKind::TooShort;
    }
    match data[3] {
        0x00 => PacketKind::PushData,
        0x02 => PacketKind::PullData,
        0x05 => PacketKind::TxAck,
        cid => PacketKind::Unknown { cid },
    }
}

/// CRC status of a received frame.
#[derive(Debug, Clone, Copy, PartialEq, Eq, Structural)]
pub enum CrcStatus {
    NoCrc,
    BadCrc,
    CrcOk,
}

/// Whether an uplink is forwarded: a frame without reception info always
/// is; otherwise its CRC status must be one the filters let through.
pub open spec fn forwarded(crc: Option<CrcStatus>, f: Filters) -> bool {
    match crc {
        None => true,
        Some(CrcStatus::CrcOk) => f.forward_crc_ok,
        Some(CrcStatus::BadCrc) => f.forward_crc_invalid,
        Some(CrcStatus::NoCrc) => f.forward_crc_missing,
    }
}

/// Apply the `forward_crc_*` filters to an uplink.
pub fn should_forward(crc_status: Option<CrcStatus>, filters: &Filters) -> (r: bool)
    ensures
        r == forwarded(crc_status, *filters),
{
    match crc_status {
        None => true,
        Some(s) => (s == CrcStatus::CrcOk && filters.forward_crc_ok) || (s == CrcStatus::BadCrc
            && filters.forward_crc_invalid) || (s == CrcStatus::NoCrc && filters.forward_crc_missing),
    }
}

/// Each CRC filter flag decides alone for its own CRC status: a frame with a
/// bad CRC is forwarded exactly when `forward_crc_invalid` is set, one with a
/// good CRC exactly when `forward_crc_ok` is, one without a CRC exactly when
/// `forward_crc_missing` is, whatever the other two flags say; a frame
/// without reception info is always forwarded.
pub proof fn law_crc_filters_decide_alone(f: Filters, g: Filters)
    ensures
        forwarded(Some(CrcStatus::BadCrc), f) <==> f.forward_crc_invalid,
        forwarded(Some(CrcStatus::CrcOk), f) <==> f.forward_crc_ok,
        forwarded(Some(CrcStatus::NoCrc), f) <==> f.forward_crc_missing,
        forwarded(None, f),
        f.forward_crc_invalid == g.forward_crc_invalid ==> forwarded(Some(CrcStatus::BadCrc), f)
            == forwarded(Some(CrcStatus::BadCrc), g),
        f.forward_crc_ok == g.forward_crc_ok ==> forwarded(Some(CrcStatus::CrcOk), f) == forwarded(
            Some(CrcStatus::CrcOk),
            g,
        ),
        f.forward_crc_missing == g.forward_crc_missing ==> forwarded(Some(CrcStatus::NoCrc), f)
            == forwarded(Some(CrcStatus::NoCrc), g),
{
}

/// Outcome of one downlink attempt.
#[derive(Debug, Clone, Copy, PartialEq, Eq, Structural)]
pub enum TxAckStatus {
    Ignored,
    Success,
    TooLate,
    TooEarly,
    CollisionPacket,
    CollisionBeacon,
    TxFreq,
    TxPower,
    GpsUnlocked,
    QueueFull,
    InternalError,
    DutyCycleOverflow,
}

/// One `Ignored` status per downlink attempt, to be filled in as the packet
/// forwarder acknowledges them.
pub fn initial_ack_items(n: usize) -> (r: Vec<TxAckStatus>)
    ensures
        r@.len() == n,
        forall|i: int| 0 <= i < n ==> #[trigger] r@[i] == TxAckStatus::Ignored,
{
    let mut acks: Vec<TxAckStatus> = Vec::new();
    let mut i: usize = 0;
    while i < n
        invariant
            i <= n,
            acks@.len() == i,
            forall|j: int| 0 <= j < i ==> #[trigger] acks@[j] == TxAckStatus::Ignored,
        decreases n - i,
    {
        acks.push(TxAckStatus::Ignored);
        i = i + 1;
    }
    acks
}

/// What follows a TX acknowledgement.
#[derive(Debug, Clone, Copy, PartialEq, Eq, Structural)]
pub enum TxAckOutcome {
    /// The downlink was sent, or no attempt is left.
    Done,
    /// This attempt failed; try the attempt at `index`.
    RetryNext { index: usize },
}

/// The acknowledged attempt is not one the downlink has.
#[derive(Debug, Clone, Copy, PartialEq, Eq, Structural)]
pub enum TxAckError {
    IndexOutOfBounds { index: usize, len: usize },
    /// No pending downlink is cached under the acknowledged token.
    NoCacheItem { token: u16 },
}

/// Record the status of attempt `index` and decide what follows: done when
/// it succeeded or was the last attempt, else the next attempt.
pub fn apply_tx_ack(ack_items: &mut Vec<TxAckStatus>, index: usize, status: TxAckStatus) -> (r: Result<
    TxAckOutcome,
    TxAckError,
>)
    ensures
        index >= old(ack_items)@.len() ==> r == Err::<TxAckOutcome, TxAckError>(
            TxAckError::IndexOutOfBounds { index, len: old(ack_items)@.len() as usize },
        ) && final(ack_items)@ == old(ack_items)@,
        index < old(ack_items)@.len() ==> final(ack_items)@ == old(ack_items)@.update(
            index as int,
            status,
        ) && r == Ok::<TxAckOutcome, TxAckError>(
            if status == TxAckStatus::Success || index + 1 >= old(ack_items)@.len() {
                TxAckOutcome::Done
            } else {
                TxAckOutcome::RetryNext { index: (index + 1) as usize }
            },
        ),
{
    let len = ack_items.len();
    if index >= len {
        return Err(TxAckError::IndexOutOfBounds { index, len });
    }
    ack_items.set(index, status);
    if status == TxAckStatus::Success || index >= len - 1 {
        Ok(TxAckOutcome::Done)
    } else {
        Ok(TxAckOutcome::RetryNext { index: index + 1 })
    }
}

/// The token under which a downlink is sent: its id cut to 16 bits.
pub fn downlink_token(downlink_id: u32) -> (r: u16)
    ensures
        r == downlink_id as u16,
{
    downlink_id as u16
}

/// The gateway ID has not been learnt yet.
#[derive(Debug, Clone, Copy, PartialEq, Eq, Structural)]
pub enum GatewayIdError {
    NotSet,
}

/// Stores the gateway ID that a PULL_DATA carries, as lower-case hex.
pub fn set_gateway_id(gateway_id: &mut String, raw: &[u8])
    ensures
        final(gateway_id)@ == hex_lower(raw@),
{
    *gateway_id = hex_encode(raw);
}

/// The gateway ID, once a PULL_DATA has told it.
pub fn gateway_id_ready(gateway_id: &String) -> (r: Result<String, GatewayIdError>)
    ensures
        gateway_id@.len() == 0 ==> r == Err::<String, GatewayIdError>(GatewayIdError::NotSet),
        gateway_id@.len() > 0 ==> (r matches Ok(s) && s@ == gateway_id@),
{
    if gateway_id.as_str().is_empty() {
        Err(GatewayIdError::NotSet)
    } else {
        Ok(gateway_id.clone())
    }
}

// ---------------------------------------------------------------------------
// Pending downlinks
// ---------------------------------------------------------------------------

/// How long a pending downlink is kept after it was sent: 60 s, in
/// nanoseconds.
pub const DOWNLINK_CACHE_TTL_NS: u64 = 60_000_000_000;

/// A downlink waiting for the TX acknowledgement of its attempt `index`.
#[derive(Debug)]
pub struct DownlinkCache {
    /// Time (ns) after which the entry is dropped.
    pub expire_ns: u64,
    pub frame: DownlinkFrame,
    /// Status of each attempt so far.
    pub ack_items: Vec<TxAckStatus>,
    /// The attempt that was sent last.
    pub index: usize,
}

/// The mathematical content of a [`DownlinkCache`].
pub struct PendingSpec {
    pub expire_ns: u64,
    pub downlink_id: u32,
    pub items: Seq<ItemSpec>,
    pub ack_items: Seq<TxAckStatus>,
    pub index: usize,
}

impl DownlinkCache {
    pub open spec fn spec(&self) -> PendingSpec {
        PendingSpec {
            expire_ns: self.expire_ns,
            downlink_id: self.frame.downlink_id,
            items: item_specs(self.frame.items@),
            ack_items: self.ack_items@,
            index: self.index,
        }
    }
}

/// A copy of a downlink frame.
pub fn clone_frame(f: &DownlinkFrame) -> (r: DownlinkFrame)
    ensures
        r.downlink_id == f.downlink_id,
        item_specs(r.items@) == item_specs(f.items@),
{
    let mut items: Vec<DownlinkFrameItem> = Vec::new();
    let n = f.items.len();
    let mut i: usize = 0;
    while i < n
        invariant
            n == f.items@.len(),
            i <= n,
            items@.len() == i,
            forall|j: int| 0 <= j < i ==> (#[trigger] items@[j]).spec() == f.items@[j].spec(),
        decreases n - i,
    {
        let it = &f.items[i];
        items.push(
            DownlinkFrameItem {
                phy_payload: copy_vec_u8(&it.phy_payload),
                tx_info: DownlinkTxInfo {
                    frequency: it.tx_info.frequency,
                    power: it.tx_info.power,
                    bandwidth: it.tx_info.bandwidth,
                    spreading_factor: it.tx_info.spreading_factor,
                    timing: it.tx_info.timing,
                    context: copy_vec_u8(&it.tx_info.context),
                },
            },
        );
        i = i + 1;
    }
    assert(item_specs(items@) =~= item_specs(f.items@));
    DownlinkFrame { downlink_id: f.downlink_id, items }
}

fn clone_acks(v: &Vec<TxAckStatus>) -> (r: Vec<TxAckStatus>)
    ensures
        r@ == v@,
{
    let mut out: Vec<TxAckStatus> = Vec::new();
    let n = v.len();
    let mut i: usize = 0;
    while i < n
        invariant
            n == v@.len(),
            i <= n,
            out@ == v@.subrange(0, i as int),
        decreases n - i,
    {
        out.push(v[i]);
        i = i + 1;
        assert(out@ =~= v@.subrange(0, i as int));
    }
    assert(v@.subrange(0, n as int) =~= v@);
    out
}

fn clone_downlink_cache(dc: &DownlinkCache) -> (r: DownlinkCache)
    ensures
        r.spec() == dc.spec(),
{
    DownlinkCache {
        expire_ns: dc.expire_ns,
        frame: clone_frame(&dc.frame),
        ack_items: clone_acks(&dc.ack_items),
        index: dc.index,
    }
}

/// The downlinks waiting for a TX acknowledgement, by 16-bit token.
pub struct DownlinkCacheStore {
    entries: HashMap<u16, DownlinkCache>,
}

/// A pending downlink is dropped once its expiry time lies before `now_ns`.
pub open spec fn unexpired(p: PendingSpec, now_ns: u64) -> bool {
    !(p.expire_ns < now_ns)
}

/// The pending downlinks that remain after dropping the expired ones.
pub open spec fn cleaned(m: Map<u16, PendingSpec>, now_ns: u64) -> Map<u16, PendingSpec> {
    m.restrict(m.dom().filter(|k: u16| unexpired(m[k], now_ns)))
}

impl DownlinkCacheStore {
    /// What the store holds: token to pending downlink.
    pub closed spec fn view(&self) -> Map<u16, PendingSpec> {
        self.entries@.map_values(|d: DownlinkCache| d.spec())
    }

    /// An empty store.
    pub fn new() -> (r: Self)
        ensures
            r@ == Map::<u16, PendingSpec>::empty(),
    {
        let r = DownlinkCacheStore { entries: HashMap::new() };
        assert(r@ =~= Map::<u16, PendingSpec>::empty());
        r
    }

    /// Number of pending downlinks.
    pub fn len(&self) -> (r: usize)
        ensures
            r == self@.dom().len(),
    {
        broadcast use vstd::std_specs::hash::group_hash_axioms;

        assert(self@.dom() =~= self.entries@.dom());
        self.entries.len()
    }
}

/// Stores a pending downlink under `token`, replacing any earlier one.
pub fn set_downlink_cache(store: &mut DownlinkCacheStore, token: u16, dc: DownlinkCache)
    ensures
        final(store)@ == old(store)@.insert(token, dc.spec()),
{
    broadcast use vstd::std_specs::hash::group_hash_axioms;

    let ghost v = dc.spec();
    store.entries.insert(token, dc);
    assert(store@ =~= old(store)@.insert(token, v));
}

/// Drops the pending downlinks whose expiry time lies before `now_ns`.
pub fn clean_downlink_cache(store: &mut DownlinkCacheStore, now_ns: u64)
    ensures
        final(store)@ == cleaned(old(store)@, now_ns),
{
    broadcast use vstd::std_specs::hash::group_hash_axioms;

    let ghost old_m = store.entries@;
    let mut keys: Vec<u16> = Vec::new();
    for k in it: store.entries.keys()
        invariant
            old_m == store.entries@,
            it.seq() == vstd::std_specs::iter::IteratorSpec::remaining(
                &vstd::std_specs::hash::spec_keys_iter(&store.entries),
            ),
            keys@ == it.seq().unref().take(it.index() as int),
    {
        keys.push(*k);
    }
    proof {
        let ghost all = vstd::std_specs::iter::IteratorSpec::remaining(
            &vstd::std_specs::hash::spec_keys_iter(&store.entries),
        );
        assert(keys@ =~= all.unref());
        assert(keys@.to_set() =~= old_m.dom());
    }
    let n = keys.len();
    let mut i: usize = 0;
    while i < n
        invariant
            n == keys@.len(),
            i <= n,
            keys@.to_set() == old_m.dom(),
            forall|k: u16| #[trigger] store.entries@.contains_key(k) <==> old_m.contains_key(k) && (
                keys@.take(i as int).contains(k) ==> unexpired(old_m[k].spec(), now_ns)),
            forall|k: u16| #[trigger] store.entries@.contains_key(k) ==> store.entries@[k] == old_m[k],
        decreases n - i,
    {
        let k = keys[i];
        let ghost before = store.entries@;
        let expired = match store.entries.get(&k) {
            Some(d) => d.expire_ns < now_ns,
            None => false,
        };
        if expired {
            store.entries.remove(&k);
        }
        proof {
            let prev = keys@.take(i as int);
            assert(keys@.take(i + 1) =~= prev.push(k));
            assert forall|kk: u16| #[trigger] store.entries@.contains_key(kk) <==> old_m.contains_key(kk) && (
                keys@.take(i + 1).contains(kk) ==> unexpired(old_m[kk].spec(), now_ns)) by {
                if kk != k {
                    if prev.push(k).contains(kk) {
                        let j = choose|j: int| 0 <= j < prev.push(k).len() && prev.push(k)[j] == kk;
                        assert(prev[j] == kk);
                    }
                    if prev.contains(kk) {
                        let j = choose|j: int| 0 <= j < prev.len() && prev[j] == kk;
                        assert(prev.push(k)[j] == kk);
                    }
                } else {
                    assert(prev.push(k)[prev.len() as int] == k);
                    if before.contains_key(k) {
                        assert(before[k] == old_m[k]);
                    }
                }
            }
        }
        i = i + 1;
    }
    proof {
        assert(keys@.take(n as int) =~= keys@);
        assert forall|k: u16| old_m.contains_key(k) implies keys@.contains(k) by {
            assert(keys@.to_set().contains(k));
        }
    }
    assert(store@ =~= cleaned(old(store)@, now_ns));
}

/// Drops the expired pending downlinks, then gives a copy of the one under
/// `token`, if any.
pub fn get_downlink_cache(store: &mut DownlinkCacheStore, token: u16, now_ns: u64) -> (r: Option<
    DownlinkCache,
>)
    ensures
        final(store)@ == cleaned(old(store)@, now_ns),
        r is Some <==> final(store)@.contains_key(token),
        r matches Some(d) ==> d.spec() == final(store)@[token],
{
    broadcast use vstd::std_specs::hash::group_hash_axioms;

    clean_downlink_cache(store, now_ns);
    match store.entries.get(&token) {
        Some(d) => Some(clone_downlink_cache(d)),
        None => None,
    }
}

/// Records a downlink whose attempt `index` is being sent at `now_ns`; it
/// stays pending for 60 s under its token, the downlink id cut to 16 bits,
/// which is returned.
pub fn record_downlink(
    store: &mut DownlinkCacheStore,
    frame: DownlinkFrame,
    ack_items: Vec<TxAckStatus>,
    index: usize,
    now_ns: u64,
) -> (r: u16)
    requires
        now_ns <= u64::MAX - DOWNLINK_CACHE_TTL_NS,
    ensures
        r == frame.downlink_id as u16,
        final(store)@ == old(store)@.insert(
            r,
            PendingSpec {
                expire_ns: (now_ns + DOWNLINK_CACHE_TTL_NS) as u64,
                downlink_id: frame.downlink_id,
                items: item_specs(frame.items@),
                ack_items: ack_items@,
                index,
            },
        ),
{
    let token = downlink_token(frame.downlink_id);
    let dc = DownlinkCache { expire_ns: now_ns + DOWNLINK_CACHE_TTL_NS, frame, ack_items, index };
    set_downlink_cache(store, token, dc);
    token
}

/// What follows a TX acknowledgement for a pending downlink.
#[derive(Debug)]
pub enum TxAckAction {
    /// The downlink was sent, or no attempt is left.
    Done { downlink_id: u32 },
    /// The acknowledged attempt failed: attempt `index` of `frame` is now
    /// pending under `token` and is to be sent.
    Resend { frame: DownlinkFrame, index: usize, token: u16 },
}

/// Handles a TX acknowledgement with `status` for `token` at `now_ns`:
/// expired downlinks are dropped, the acknowledged attempt's status is
/// recorded, and a failed attempt with a successor leaves the successor
/// pending.
pub fn handle_tx_ack(store: &mut DownlinkCacheStore, token: u16, status: TxAckStatus, now_ns: u64) -> (r: Result<
    TxAckAction,
    TxAckError,
>)
    requires
        now_ns <= u64::MAX - DOWNLINK_CACHE_TTL_NS,
    ensures
        ({
            let c = cleaned(old(store)@, now_ns);
            let p = c[token];
            &&& !c.contains_key(token) ==> r == Err::<TxAckAction, TxAckError>(TxAckError::NoCacheItem { token })
                && final(store)@ == c
            &&& c.contains_key(token) && p.index >= p.ack_items.len() ==> r == Err::<TxAckAction, TxAckError>(
                TxAckError::IndexOutOfBounds { index: p.index, len: p.ack_items.len() as usize },
            ) && final(store)@ == c
            &&& c.contains_key(token) && p.index < p.ack_items.len() && (status == TxAckStatus::Success
                || p.index + 1 >= p.ack_items.len()) ==> r == Ok::<TxAckAction, TxAckError>(
                TxAckAction::Done { downlink_id: p.downlink_id },
            ) && final(store)@ == c
            &&& c.contains_key(token) && p.index + 1 < p.ack_items.len() && status != TxAckStatus::Success
                ==> (r matches Ok(TxAckAction::Resend { frame, index, token: t }) && index == (p.index + 1) as usize
                && t == p.downlink_id as u16 && frame.downlink_id == p.downlink_id && item_specs(frame.items@)
                == p.items && final(store)@ == c.insert(
                t,
                PendingSpec {
                    expire_ns: (now_ns + DOWNLINK_CACHE_TTL_NS) as u64,
                    downlink_id: p.downlink_id,
                    items: p.items,
                    ack_items: p.ack_items.update(p.index as int, status),
                    index: (p.index + 1) as usize,
                },
            ))
        }),
{
    let dc = match get_downlink_cache(store, token, now_ns) {
        Some(d) => d,
        None => return Err(TxAckError::NoCacheItem { token }),
    };
    let DownlinkCache { expire_ns, frame, ack_items, index } = dc;
    let mut acks = ack_items;
    match apply_tx_ack(&mut acks, index, status) {
        Err(e) => Err(e),
        Ok(TxAckOutcome::Done) => Ok(TxAckAction::Done { downlink_id: frame.downlink_id }),
        Ok(TxAckOutcome::RetryNext { index: next }) => {
            let copy = clone_frame(&frame);
            let t = record_downlink(store, frame, acks, next, now_ns);
            Ok(TxAckAction::Resend { frame: copy, index: next, token: t })
        },
    }
}

/// A pending downlink stored under a token is what a later lookup under that
/// token gives back, as long as it has not expired; once expired, the lookup
/// finds nothing.
pub proof fn law_pending_read_after_write(
    m: Map<u16, PendingSpec>,
    token: u16,
    p: PendingSpec,
    now_ns: u64,
)
    ensures
        unexpired(p, now_ns) ==> cleaned(m.insert(token, p), now_ns).contains_key(token)
            && cleaned(m.insert(token, p), now_ns)[token] == p,
        !unexpired(p, now_ns) ==> !cleaned(m.insert(token, p), now_ns).contains_key(token),
{
    let m2 = m.insert(token, p);
    assert(m2.contains_key(token) && m2[token] == p);
    if unexpired(p, now_ns) {
        assert(m2.dom().filter(|k: u16| unexpired(m2[k], now_ns)).contains(token));
    }
}

} // verus!
