//! The router_config state (data rate table) and the channel plan it asks
//! the concentrator for.
use vstd::prelude::*;

use super::messages::{
    ChannelConf, FskChannelConf, LoraStdChannelConf, RadioConf, RouterConfig, Sx1301Conf,
};

verus! {

/// Parsed and stored router_config state.
#[derive(Debug)]
pub struct RouterConfigState {
    /// Data rate table from router_config.
    /// Index is DR number, value is (SF, BW_kHz); SF=0 means FSK.
    pub drs: Vec<(u32, u32)>,
    /// Network ID filter.
    pub net_ids: Vec<u32>,
    /// JoinEUI filter ranges.
    pub join_eui_ranges: Vec<(u64, u64)>,
    /// Frequency range (min, max) in Hz.
    pub freq_range: (u32, u32),
    /// Region string.
    pub region: String,
    /// TX power (dBm) requested for mesh-relayed downlinks.
    pub tx_power_dbm: i32,
}

/// One DR table entry `[SF, BW, ...]` as (SF, BW); a missing value is 0.
pub open spec fn dr_entry(e: Seq<i32>) -> (u32, u32) {
    (
        if e.len() > 0 { e[0] as u32 } else { 0 },
        if e.len() > 1 { e[1] as u32 } else { 0 },
    )
}

/// The JoinEUI ranges: each two-element entry, in order; others are dropped.
pub open spec fn eui_ranges(r: Seq<Seq<u64>>) -> Seq<(u64, u64)>
    decreases r.len(),
{
    if r.len() == 0 {
        Seq::empty()
    } else {
        let head = eui_ranges(r.drop_last());
        let last = r.last();
        if last.len() == 2 {
            head.push((last[0], last[1]))
        } else {
            head
        }
    }
}

/// Index of the first DR with the given (SF, BW_kHz) from `i` on, or -1.
pub open spec fn find_lora_dr(drs: Seq<(u32, u32)>, sf: u32, bw: u32, i: int) -> int
    decreases drs.len() - i,
{
    if i < 0 || i >= drs.len() {
        -1
    } else if drs[i] == (sf, bw) {
        i
    } else {
        find_lora_dr(drs, sf, bw, i + 1)
    }
}

/// Index of the first FSK DR (SF 0) from `i` on, or -1.
pub open spec fn find_fsk_dr(drs: Seq<(u32, u32)>, i: int) -> int
    decreases drs.len() - i,
{
    if i < 0 || i >= drs.len() {
        -1
    } else if drs[i].0 == 0 {
        i
    } else {
        find_fsk_dr(drs, i + 1)
    }
}

/// (SF, BW in Hz) of a DR index, if the table has it.
pub open spec fn dr_sf_bw(drs: Seq<(u32, u32)>, dr: i32) -> Option<(u32, u32)> {
    if dr < 0 || dr >= drs.len() {
        None
    } else {
        Some((drs[dr as int].0, (drs[dr as int].1 * 1000) as u32))
    }
}

/// The state kept of a router_config: its DR table as (SF, BW) pairs, its
/// two-element JoinEUI ranges, its frequency range (or (0, 0) unless it has
/// exactly two values), its NetIDs, region and maximum EIRP.
pub open spec fn router_state_of(rc: RouterConfig, s: RouterConfigState) -> bool {
    &&& s.drs@.len() == rc.drs@.len()
    &&& forall|i: int| 0 <= i < s.drs@.len() ==> s.drs@[i] == dr_entry(#[trigger] rc.drs@[i]@)
    &&& s.join_eui_ranges@ == eui_ranges(rc.join_eui.deep_view())
    &&& s.freq_range == (if rc.freq_range@.len() == 2 {
        (rc.freq_range@[0], rc.freq_range@[1])
    } else {
        (0u32, 0u32)
    })
    &&& s.net_ids@ == rc.net_id@
    &&& s.region@ == rc.region@
    &&& s.tx_power_dbm == rc.max_eirp
}

fn copy_pairs<A: Copy, B: Copy>(v: &Vec<(A, B)>) -> (r: Vec<(A, B)>)
    ensures
        r@ == v@,
{
    let mut out: Vec<(A, B)> = Vec::new();
    let n = v.len();
    let mut i: usize = 0;
    while i < n
        invariant
            n == v@.len(),
            i <= n,
            out@ == v@.take(i as int),
        decreases n - i,
    {
        out.push(v[i]);
        i = i + 1;
        proof {
            assert(v@.take(i as int) == v@.take(i - 1).push(v@[i - 1]));
        }
    }
    proof {
        assert(v@.take(n as int) == v@);
    }
    out
}

fn copy_u32s(v: &Vec<u32>) -> (r: Vec<u32>)
    ensures
        r@ == v@,
{
    let mut out: Vec<u32> = Vec::new();
    let n = v.len();
    let mut i: usize = 0;
    while i < n
        invariant
            n == v@.len(),
            i <= n,
            out@ == v@.take(i as int),
        decreases n - i,
    {
        out.push(v[i]);
        i = i + 1;
        proof {
            assert(v@.take(i as int) == v@.take(i - 1).push(v@[i - 1]));
        }
    }
    proof {
        assert(v@.take(n as int) == v@);
    }
    out
}

impl Clone for RouterConfigState {
    fn clone(&self) -> (r: Self)
        ensures
            r.drs@ == self.drs@,
            r.net_ids@ == self.net_ids@,
            r.join_eui_ranges@ == self.join_eui_ranges@,
            r.freq_range == self.freq_range,
            r.region@ == self.region@,
            r.tx_power_dbm == self.tx_power_dbm,
    {
        RouterConfigState {
            drs: copy_pairs(&self.drs),
            net_ids: copy_u32s(&self.net_ids),
            join_eui_ranges: copy_pairs(&self.join_eui_ranges),
            freq_range: self.freq_range,
            region: self.region.clone(),
            tx_power_dbm: self.tx_power_dbm,
        }
    }
}

impl RouterConfigState {
    /// Create from a received router_config message.
    pub fn from_router_config(rc: &RouterConfig) -> (r: Self)
        ensures
            router_state_of(*rc, r),
    {
        let mut drs: Vec<(u32, u32)> = Vec::new();
        let n = rc.drs.len();
        let mut i: usize = 0;
        while i < n
            invariant
                n == rc.drs@.len(),
                i <= n,
                drs@.len() == i,
                forall|j: int| 0 <= j < i ==> drs@[j] == dr_entry(#[trigger] rc.drs@[j]@),
            decreases n - i,
        {
            let entry = &rc.drs[i];
            let sf = if entry.len() > 0 { entry[0] as u32 } else { 0 };
            let bw = if entry.len() > 1 { entry[1] as u32 } else { 0 };
            drs.push((sf, bw));
            i = i + 1;
        }
        let mut join_eui_ranges: Vec<(u64, u64)> = Vec::new();
        let m = rc.join_eui.len();
        let mut k: usize = 0;
        while k < m
            invariant
                m == rc.join_eui@.len(),
                k <= m,
                join_eui_ranges@ == eui_ranges(rc.join_eui.deep_view().take(k as int)),
            decreases m - k,
        {
            let range = &rc.join_eui[k];
            proof {
                let dv = rc.join_eui.deep_view();
                assert(dv.take(k + 1).drop_last() == dv.take(k as int));
                assert(dv.take(k + 1).last() == range@);
            }
            if range.len() == 2 {
                join_eui_ranges.push((range[0], range[1]));
            }
            k = k + 1;
        }
        proof {
            assert(rc.join_eui.deep_view().take(m as int) == rc.join_eui.deep_view());
        }
        let freq_range = if rc.freq_range.len() == 2 {
            (rc.freq_range[0], rc.freq_range[1])
        } else {
            (0, 0)
        };
        RouterConfigState {
            drs,
            net_ids: copy_u32s(&rc.net_id),
            join_eui_ranges,
            freq_range,
            region: rc.region.clone(),
            tx_power_dbm: rc.max_eirp,
        }
    }

    /// Look up DR index from SF and BW (kHz); -1 if not found.
    pub fn sf_bw_to_dr(&self, sf: u32, bw_khz: u32) -> (r: i32)
        requires
            self.drs@.len() <= i32::MAX,
        ensures
            r == find_lora_dr(self.drs@, sf, bw_khz, 0),
    {
        let n = self.drs.len();
        let mut i: usize = 0;
        while i < n
            invariant
                n == self.drs@.len() <= i32::MAX,
                i <= n,
                find_lora_dr(self.drs@, sf, bw_khz, 0) == find_lora_dr(self.drs@, sf, bw_khz, i as int),
            decreases n - i,
        {
            let (dr_sf, dr_bw) = self.drs[i];
            if dr_sf == sf && dr_bw == bw_khz {
                return i as i32;
            }
            i = i + 1;
        }
        -1
    }

    /// Look up DR index for FSK; -1 if not found.
    pub fn fsk_to_dr(&self) -> (r: i32)
        requires
            self.drs@.len() <= i32::MAX,
        ensures
            r == find_fsk_dr(self.drs@, 0),
    {
        let n = self.drs.len();
        let mut i: usize = 0;
        while i < n
            invariant
                n == self.drs@.len() <= i32::MAX,
                i <= n,
                find_fsk_dr(self.drs@, 0) == find_fsk_dr(self.drs@, i as int),
            decreases n - i,
        {
            let (sf, _bw) = self.drs[i];
            if sf == 0 {
                return i as i32;
            }
            i = i + 1;
        }
        -1
    }

    /// Get SF and BW (Hz) for a DR index.
    pub fn dr_to_sf_bw(&self, dr: i32) -> (r: Option<(u32, u32)>)
        requires
            0 <= dr < self.drs@.len() ==> self.drs@[dr as int].1 * 1000 <= u32::MAX,
        ensures
            r == dr_sf_bw(self.drs@, dr),
    {
        if dr < 0 || dr as usize >= self.drs.len() {
            return None;
        }
        let (sf, bw_khz) = self.drs[dr as usize];
        Some((sf, bw_khz * 1000))
    }
}

proof fn lemma_find_lora_dr(drs: Seq<(u32, u32)>, sf: u32, bw: u32, i: int)
    ensures
        find_lora_dr(drs, sf, bw, i) >= 0 ==> i <= find_lora_dr(drs, sf, bw, i) < drs.len()
            && drs[find_lora_dr(drs, sf, bw, i)] == (sf, bw),
        find_lora_dr(drs, sf, bw, i) < 0 ==> find_lora_dr(drs, sf, bw, i) == -1,
    decreases drs.len() - i,
{
    if 0 <= i < drs.len() && drs[i] != (sf, bw) {
        lemma_find_lora_dr(drs, sf, bw, i + 1);
    }
}

/// Looking a LoRa (SF, BW) up in the DR table and reading the DR found back
/// gives the same SF and the bandwidth in Hz; and the DR found is the first
/// with that entry.
pub proof fn law_dr_lookup_round_trip(drs: Seq<(u32, u32)>, sf: u32, bw_khz: u32)
    requires
        bw_khz * 1000 <= u32::MAX,
        drs.len() <= i32::MAX,
    ensures
        find_lora_dr(drs, sf, bw_khz, 0) >= 0 ==> ({
            let d = find_lora_dr(drs, sf, bw_khz, 0);
            &&& dr_sf_bw(drs, d as i32) == Some((sf, (bw_khz * 1000) as u32))
            &&& forall|j: int| 0 <= j < d ==> drs[j] != (sf, bw_khz)
        }),
        find_lora_dr(drs, sf, bw_khz, 0) < 0 ==> forall|j: int| 0 <= j < drs.len() ==> drs[j] != (
            sf,
            bw_khz,
        ),
{
    lemma_find_lora_dr(drs, sf, bw_khz, 0);
    assert forall|j: int| 0 <= j < drs.len() && j < find_lora_dr(drs, sf, bw_khz, 0) || 0 <= j < drs.len()
        && find_lora_dr(drs, sf, bw_khz, 0) < 0 implies drs[j] != (sf, bw_khz) by {
        lemma_find_lora_dr_skips(drs, sf, bw_khz, 0, j);
    }
}

proof fn lemma_find_lora_dr_skips(drs: Seq<(u32, u32)>, sf: u32, bw: u32, i: int, j: int)
    requires
        0 <= i <= j < drs.len(),
        find_lora_dr(drs, sf, bw, i) < 0 || j < find_lora_dr(drs, sf, bw, i),
    ensures
        drs[j] != (sf, bw),
    decreases j - i,
{
    if i < j {
        if drs[i] != (sf, bw) {
            lemma_find_lora_dr_skips(drs, sf, bw, i + 1, j);
        }
    }
}

/// Modulation of a concentrator channel.
#[derive(Debug, Clone)]
pub enum ChannelModulation {
    Lora { bandwidth: u32, spreading_factors: Vec<u32> },
    Fsk { bandwidth: u32, bitrate: u32 },
}

/// One concentrator channel.
#[derive(Debug, Clone)]
pub struct ChannelConfiguration {
    pub frequency: u32,
    pub modulation: ChannelModulation,
}

/// The channel plan handed to the concentrator.
#[derive(Debug, Clone)]
pub struct GatewayConfiguration {
    pub channels: Vec<ChannelConfiguration>,
}

/// The mathematical content of a channel.
pub enum ChannelSpec {
    Lora { frequency: u32, bandwidth: u32, spreading_factors: Seq<u32> },
    Fsk { frequency: u32, bandwidth: u32, bitrate: u32 },
}

impl ChannelConfiguration {
    pub open spec fn spec(&self) -> ChannelSpec {
        match &self.modulation {
            ChannelModulation::Lora { bandwidth, spreading_factors } => ChannelSpec::Lora {
                frequency: self.frequency,
                bandwidth: *bandwidth,
                spreading_factors: spreading_factors@,
            },
            ChannelModulation::Fsk { bandwidth, bitrate } => ChannelSpec::Fsk {
                frequency: self.frequency,
                bandwidth: *bandwidth,
                bitrate: *bitrate,
            },
        }
    }
}

/// The mathematical content of a list of channels.
pub open spec fn specs(v: Seq<ChannelConfiguration>) -> Seq<ChannelSpec> {
    v.map_values(|c: ChannelConfiguration| c.spec())
}

impl GatewayConfiguration {
    pub open spec fn channels_spec(&self) -> Seq<ChannelSpec> {
        specs(self.channels@)
    }
}

/// Frequency of a radio, 0 when it is not configured.
pub open spec fn radio_freq(r: Option<RadioConf>) -> u32 {
    match r {
        Some(rc) => match rc.freq {
            Some(f) => f,
            None => 0,
        },
        None => 0,
    }
}

/// Centre frequency of a channel: its radio's frequency (radio 0, or else
/// radio 1) plus the IF offset, taken modulo 2^32.
pub open spec fn channel_freq(b: Sx1301Conf, radio: Option<u8>, if_freq: Option<i32>) -> u32 {
    let r = match radio {
        Some(x) => x,
        None => 0,
    };
    let base = if r == 0 {
        radio_freq(b.radio_0)
    } else {
        radio_freq(b.radio_1)
    };
    let off = match if_freq {
        Some(x) => x,
        None => 0,
    };
    (base as i64 + off as i64) as u32
}

/// The spreading factors of a multi-SF channel.
pub open spec fn multi_sfs() -> Seq<u32> {
    seq![7u32, 8u32, 9u32, 10u32, 11u32, 12u32]
}

/// A multi-SF channel, if enabled: LoRa, 125 kHz, SF7 to SF12.
pub open spec fn multi_sf_channel(b: Sx1301Conf, ch: Option<ChannelConf>) -> Seq<ChannelSpec> {
    match ch {
        Some(c) => if c.enable == Some(true) {
            seq![ChannelSpec::Lora {
                frequency: channel_freq(b, c.radio, c.if_freq),
                bandwidth: 125000,
                spreading_factors: multi_sfs(),
            }]
        } else {
            Seq::empty()
        },
        None => Seq::empty(),
    }
}

/// The standard LoRa channel, if enabled (defaults 250 kHz, SF7).
pub open spec fn lora_std_channel(b: Sx1301Conf) -> Seq<ChannelSpec> {
    match b.chan_lora_std {
        Some(c) => if c.enable == Some(true) {
            seq![ChannelSpec::Lora {
                frequency: channel_freq(b, c.radio, c.if_freq),
                bandwidth: match c.bandwidth { Some(x) => x, None => 250000 },
                spreading_factors: seq![match c.spread_factor { Some(x) => x, None => 7 }],
            }]
        } else {
            Seq::empty()
        },
        None => Seq::empty(),
    }
}

/// The FSK channel, if enabled (defaults 125 kHz, 50 kbit/s).
pub open spec fn fsk_channel(b: Sx1301Conf) -> Seq<ChannelSpec> {
    match b.chan_fsk {
        Some(c) => if c.enable == Some(true) {
            seq![ChannelSpec::Fsk {
                frequency: channel_freq(b, c.radio, c.if_freq),
                bandwidth: match c.bandwidth { Some(x) => x, None => 125000 },
                bitrate: match c.datarate { Some(x) => x, None => 50000 },
            }]
        } else {
            Seq::empty()
        },
        None => Seq::empty(),
    }
}

/// The channels of one board: the eight multi-SF channels, then the
/// standard LoRa channel, then the FSK channel, each only when enabled.
pub open spec fn board_channels(b: Sx1301Conf) -> Seq<ChannelSpec> {
    multi_sf_channel(b, b.chan_multi_sf_0) + multi_sf_channel(b, b.chan_multi_sf_1)
        + multi_sf_channel(b, b.chan_multi_sf_2) + multi_sf_channel(b, b.chan_multi_sf_3)
        + multi_sf_channel(b, b.chan_multi_sf_4) + multi_sf_channel(b, b.chan_multi_sf_5)
        + multi_sf_channel(b, b.chan_multi_sf_6) + multi_sf_channel(b, b.chan_multi_sf_7)
        + lora_std_channel(b) + fsk_channel(b)
}

/// The channels of all boards, board by board.
pub open spec fn plan_channels(boards: Seq<Sx1301Conf>) -> Seq<ChannelSpec>
    decreases boards.len(),
{
    if boards.len() == 0 {
        Seq::empty()
    } else {
        plan_channels(boards.drop_last()) + board_channels(boards.last())
    }
}

fn radio_frequency(r: Option<RadioConf>) -> (f: u32)
    ensures
        f == radio_freq(r),
{
    match r {
        Some(rc) => match rc.freq {
            Some(f) => f,
            None => 0,
        },
        None => 0,
    }
}

fn channel_frequency(b: &Sx1301Conf, radio: Option<u8>, if_freq: Option<i32>) -> (f: u32)
    ensures
        f == channel_freq(*b, radio, if_freq),
{
    let r = match radio {
        Some(x) => x,
        None => 0,
    };
    let base = if r == 0 {
        radio_frequency(b.radio_0)
    } else {
        radio_frequency(b.radio_1)
    };
    let off = match if_freq {
        Some(x) => x,
        None => 0,
    };
    (base as i64 + off as i64) as u32
}

fn push_multi_sf(channels: &mut Vec<ChannelConfiguration>, b: &Sx1301Conf, ch: Option<ChannelConf>)
    ensures
        specs(final(channels)@) == specs(old(channels)@) + multi_sf_channel(*b, ch),
{
    if let Some(c) = ch {
        if c.enable == Some(true) {
            let freq = channel_frequency(b, c.radio, c.if_freq);
            let sfs: Vec<u32> = vec![7, 8, 9, 10, 11, 12];
            channels.push(
                ChannelConfiguration {
                    frequency: freq,
                    modulation: ChannelModulation::Lora { bandwidth: 125000, spreading_factors: sfs },
                },
            );
            proof {
                assert(sfs@ =~= multi_sfs());
            }
        }
    }
    assert(specs(final(channels)@) =~= specs(old(channels)@) + multi_sf_channel(*b, ch));
}

fn push_lora_std(channels: &mut Vec<ChannelConfiguration>, b: &Sx1301Conf)
    ensures
        specs(final(channels)@) == specs(old(channels)@) + lora_std_channel(*b),
{
    if let Some(c) = b.chan_lora_std {
        if c.enable == Some(true) {
            let freq = channel_frequency(b, c.radio, c.if_freq);
            let bw = match c.bandwidth {
                Some(x) => x,
                None => 250000,
            };
            let sf = match c.spread_factor {
                Some(x) => x,
                None => 7,
            };
            let sfs: Vec<u32> = vec![sf];
            channels.push(
                ChannelConfiguration {
                    frequency: freq,
                    modulation: ChannelModulation::Lora { bandwidth: bw, spreading_factors: sfs },
                },
            );
            proof {
                assert(sfs@ =~= seq![sf]);
            }
        }
    }
    assert(specs(final(channels)@) =~= specs(old(channels)@) + lora_std_channel(*b));
}

fn push_fsk(channels: &mut Vec<ChannelConfiguration>, b: &Sx1301Conf)
    ensures
        specs(final(channels)@) == specs(old(channels)@) + fsk_channel(*b),
{
    if let Some(c) = b.chan_fsk {
        if c.enable == Some(true) {
            let freq = channel_frequency(b, c.radio, c.if_freq);
            let bw = match c.bandwidth {
                Some(x) => x,
                None => 125000,
            };
            let dr = match c.datarate {
                Some(x) => x,
                None => 50000,
            };
            channels.push(
                ChannelConfiguration {
                    frequency: freq,
                    modulation: ChannelModulation::Fsk { bandwidth: bw, bitrate: dr },
                },
            );
        }
    }
    assert(specs(final(channels)@) =~= specs(old(channels)@) + fsk_channel(*b));
}

fn push_board(channels: &mut Vec<ChannelConfiguration>, board: &Sx1301Conf)
    ensures
        specs(final(channels)@) == specs(old(channels)@) + board_channels(*board),
{
    let ghost s0 = specs(channels@);
    push_multi_sf(channels, board, board.chan_multi_sf_0);
    push_multi_sf(channels, board, board.chan_multi_sf_1);
    push_multi_sf(channels, board, board.chan_multi_sf_2);
    push_multi_sf(channels, board, board.chan_multi_sf_3);
    push_multi_sf(channels, board, board.chan_multi_sf_4);
    push_multi_sf(channels, board, board.chan_multi_sf_5);
    push_multi_sf(channels, board, board.chan_multi_sf_6);
    push_multi_sf(channels, board, board.chan_multi_sf_7);
    push_lora_std(channels, board);
    push_fsk(channels, board);
    assert(specs(channels@) =~= s0 + board_channels(*board));
}

/// Translate router_config sx1301_conf into the concentrator channel plan.
pub fn to_gateway_configuration(rc: &RouterConfig) -> (r: GatewayConfiguration)
    ensures
        r.channels_spec() == plan_channels(rc.sx1301_conf@),
{
    let mut channels: Vec<ChannelConfiguration> = Vec::new();
    let n = rc.sx1301_conf.len();
    let mut i: usize = 0;
    assert(specs(channels@) =~= plan_channels(rc.sx1301_conf@.take(0)));
    while i < n
        invariant
            n == rc.sx1301_conf@.len(),
            i <= n,
            specs(channels@) == plan_channels(rc.sx1301_conf@.take(i as int)),
        decreases n - i,
    {
        let board = rc.sx1301_conf[i];
        proof {
            let t = rc.sx1301_conf@.take(i + 1);
            assert(t.drop_last() == rc.sx1301_conf@.take(i as int));
            assert(t.last() == board);
        }
        push_board(&mut channels, &board);
        i = i + 1;
    }
    proof {
        assert(rc.sx1301_conf@.take(n as int) == rc.sx1301_conf@);
    }
    GatewayConfiguration { channels }
}

/// Multi-SF channel `k` (0 to 7) of a board.
pub open spec fn multi_sf_conf(b: Sx1301Conf, k: int) -> Option<ChannelConf> {
    if k == 0 {
        b.chan_multi_sf_0
    } else if k == 1 {
        b.chan_multi_sf_1
    } else if k == 2 {
        b.chan_multi_sf_2
    } else if k == 3 {
        b.chan_multi_sf_3
    } else if k == 4 {
        b.chan_multi_sf_4
    } else if k == 5 {
        b.chan_multi_sf_5
    } else if k == 6 {
        b.chan_multi_sf_6
    } else {
        b.chan_multi_sf_7
    }
}

/// A channel entry that is present and enabled.
pub open spec fn conf_on(o: Option<ChannelConf>) -> bool {
    o matches Some(c) && c.enable == Some(true)
}

/// How many of the multi-SF channels `0..k` of a board are enabled.
pub open spec fn multi_on_count(b: Sx1301Conf, k: int) -> int
    decreases k,
{
    if k <= 0 {
        0
    } else {
        multi_on_count(b, k - 1) + if conf_on(multi_sf_conf(b, k - 1)) {
            1int
        } else {
            0int
        }
    }
}

/// The LoRa channel a multi-SF channel configuration stands for: its
/// radio's frequency plus its IF offset, 125 kHz, SF7 to SF12.
pub open spec fn multi_sf_spec(b: Sx1301Conf, c: ChannelConf) -> ChannelSpec {
    ChannelSpec::Lora {
        frequency: channel_freq(b, c.radio, c.if_freq),
        bandwidth: 125000,
        spreading_factors: seq![7u32, 8u32, 9u32, 10u32, 11u32, 12u32],
    }
}

spec fn multi_prefix(b: Sx1301Conf, k: int) -> Seq<ChannelSpec>
    decreases k,
{
    if k <= 0 {
        Seq::empty()
    } else {
        multi_prefix(b, k - 1) + multi_sf_channel(b, multi_sf_conf(b, k - 1))
    }
}

proof fn lemma_multi_prefix(b: Sx1301Conf, k: int, m: int)
    requires
        0 <= k <= m <= 8,
    ensures
        multi_prefix(b, k).len() == multi_on_count(b, k),
        multi_prefix(b, k).len() <= multi_prefix(b, m).len(),
        forall|i: int| 0 <= i < multi_prefix(b, k).len() ==> multi_prefix(b, m)[i] == multi_prefix(b, k)[i],
    decreases m,
{
    if m > k {
        lemma_multi_prefix(b, k, m - 1);
        let prev = multi_prefix(b, m - 1);
        assert(multi_prefix(b, m) == prev + multi_sf_channel(b, multi_sf_conf(b, m - 1)));
        assert forall|i: int| 0 <= i < multi_prefix(b, k).len() implies multi_prefix(b, m)[i]
            == multi_prefix(b, k)[i] by {
            assert(multi_prefix(b, m)[i] == prev[i]);
        }
    } else if k > 0 {
        lemma_multi_prefix(b, k - 1, k - 1);
    }
}

/// The channels of one board, field by field: each enabled multi-SF channel
/// `k` (0 to 7) appears once, after the enabled ones before it, at its
/// radio's frequency plus its IF offset with 125 kHz and SF7 to SF12; then
/// the standard LoRa channel and the FSK channel when enabled, and nothing
/// else.
pub proof fn law_board_channels_per_field(b: Sx1301Conf, k: int)
    requires
        0 <= k < 8,
    ensures
        board_channels(b).len() == multi_on_count(b, 8) + (if b.chan_lora_std matches Some(c) && c.enable
            == Some(true) {
            1int
        } else {
            0int
        }) + (if b.chan_fsk matches Some(c) && c.enable == Some(true) {
            1int
        } else {
            0int
        }),
        conf_on(multi_sf_conf(b, k)) ==> 0 <= multi_on_count(b, k) < board_channels(b).len(),
        conf_on(multi_sf_conf(b, k)) ==> board_channels(b)[multi_on_count(b, k)] == multi_sf_spec(
            b,
            multi_sf_conf(b, k)->0,
        ),
{
    reveal_with_fuel(multi_prefix, 9);
    reveal_with_fuel(multi_on_count, 9);
    let pre = multi_prefix(b, 8);
    assert(board_channels(b) =~= pre + lora_std_channel(b) + fsk_channel(b));
    lemma_multi_prefix(b, 8, 8);
    lemma_multi_prefix(b, k + 1, 8);
    lemma_multi_prefix(b, k, k);
    if conf_on(multi_sf_conf(b, k)) {
        let i = multi_on_count(b, k);
        assert(multi_prefix(b, k + 1) == multi_prefix(b, k) + multi_sf_channel(b, multi_sf_conf(b, k)));
        assert(multi_prefix(b, k + 1)[i] == multi_sf_spec(b, multi_sf_conf(b, k)->0));
        assert(pre[i] == multi_prefix(b, k + 1)[i]);
    }
}

/// Every enabled multi-SF channel of every board of a router_config is in
/// the channel plan, and the plan holds the boards' channels and no more.
pub proof fn law_plan_holds_every_multi_sf_channel(boards: Seq<Sx1301Conf>, i: int, k: int)
    requires
        0 <= i < boards.len(),
        0 <= k < 8,
    ensures
        conf_on(multi_sf_conf(boards[i], k)) ==> plan_channels(boards).contains(
            multi_sf_spec(boards[i], multi_sf_conf(boards[i], k)->0),
        ),
    decreases boards.len(),
{
    let last = boards.len() - 1;
    if conf_on(multi_sf_conf(boards[i], k)) {
        if i == last {
            law_board_channels_per_field(boards[i], k);
            let j = multi_on_count(boards[i], k);
            let pb = plan_channels(boards.drop_last());
            let bc = board_channels(boards[i]);
            assert(j < bc.len());
            assert(bc[j] == multi_sf_spec(boards[i], multi_sf_conf(boards[i], k)->0));
            assert(boards.last() == boards[i]);
            assert(plan_channels(boards) =~= pb + bc);
            assert((pb + bc)[pb.len() + j] == bc[j]);
        } else {
            law_plan_holds_every_multi_sf_channel(boards.drop_last(), i, k);
            assert(boards.drop_last()[i] == boards[i]);
            let pb = plan_channels(boards.drop_last());
            let x = multi_sf_spec(boards[i], multi_sf_conf(boards[i], k)->0);
            let j = choose|j: int| 0 <= j < pb.len() && pb[j] == x;
            assert(plan_channels(boards)[j] == x);
        }
    }
}

} // verus!
