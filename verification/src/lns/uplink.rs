//! Concentrator uplink frames to BasicStation uplink messages (`jreq`,
//! `updf`, `propdf`).
use vstd::prelude::*;
use vstd::slice::slice_subrange;

use super::be32;
use super::router_config::{find_fsk_dr, find_lora_dr, RouterConfigState};
use crate::cups::client::{le16, le32};
use crate::hexfmt::{hex_byte_upper, hex_encode, hex_lower, push_hex_upper};
use crate::text::string_from_chars;

verus! {

/// Time since the GPS epoch.
#[derive(Debug, Clone, Copy)]
pub struct GpsTime {
    pub seconds: i64,
    pub nanos: i32,
}

/// Reception details of an uplink (signal strength is kept by the caller).
#[derive(Debug, Clone)]
pub struct UplinkRxInfo {
    /// Concentrator context: a big-endian `count_us`, or a mesh tag.
    pub context: Vec<u8>,
    pub time_since_gps_epoch: Option<GpsTime>,
}

/// Modulation parameters of an uplink.
#[derive(Debug, Clone, Copy)]
pub enum ModulationParameters {
    Lora { bandwidth: u32, spreading_factor: u32 },
    Fsk,
    LrFhss,
}

#[derive(Debug, Clone, Copy)]
pub struct Modulation {
    pub parameters: Option<ModulationParameters>,
}

/// Transmission details of an uplink.
#[derive(Debug, Clone, Copy)]
pub struct UplinkTxInfo {
    pub frequency: u32,
    pub modulation: Option<Modulation>,
}

/// An uplink frame as the backend delivers it.
#[derive(Debug, Clone)]
pub struct UplinkFrame {
    pub phy_payload: Vec<u8>,
    pub tx_info: Option<UplinkTxInfo>,
    pub rx_info: Option<UplinkRxInfo>,
}

/// Uplink info attached to all uplink messages (RSSI and SNR are added by
/// the caller).
#[derive(Debug, Clone, Copy, PartialEq, Eq, Structural)]
pub struct UpInfo {
    pub rctx: i64,
    pub xtime: i64,
    pub gpstime: i64,
}

/// An uplink message for the LNS.
#[derive(Debug, Clone)]
pub enum UplinkMessage {
    JoinRequest {
        mhdr: u8,
        join_eui: String,
        dev_eui: String,
        dev_nonce: u16,
        mic: i32,
        dr: i32,
        freq: u32,
        upinfo: UpInfo,
    },
    DataFrame {
        mhdr: u8,
        dev_addr: i32,
        fctrl: u8,
        fcnt: u16,
        fopts: String,
        fport: i32,
        frm_payload: String,
        mic: i32,
        dr: i32,
        freq: u32,
        upinfo: UpInfo,
    },
    Proprietary { frm_payload: String, dr: i32, freq: u32, upinfo: UpInfo },
}

/// Why an uplink frame could not be turned into a message.
#[derive(Debug, Clone, Copy, PartialEq, Eq, Structural)]
pub enum UplinkError {
    EmptyPhyPayload,
    MissingTxInfo,
    MissingRxInfo,
    MissingModulation,
    UnknownModulation,
    JoinRequestTooShort { len: usize },
    DataFrameTooShort { len: usize },
    UnsupportedMType { mtype: u8 },
}

/// The mathematical content of an [`UplinkMessage`].
pub enum UplinkMessageSpec {
    JoinRequest {
        mhdr: u8,
        join_eui: Seq<char>,
        dev_eui: Seq<char>,
        dev_nonce: u16,
        mic: i32,
        dr: i32,
        freq: u32,
        upinfo: UpInfo,
    },
    DataFrame {
        mhdr: u8,
        dev_addr: i32,
        fctrl: u8,
        fcnt: u16,
        fopts: Seq<char>,
        fport: i32,
        frm_payload: Seq<char>,
        mic: i32,
        dr: i32,
        freq: u32,
        upinfo: UpInfo,
    },
    Proprietary { frm_payload: Seq<char>, dr: i32, freq: u32, upinfo: UpInfo },
}

impl UplinkMessage {
    pub open spec fn spec(&self) -> UplinkMessageSpec {
        match self {
            UplinkMessage::JoinRequest {
                mhdr,
                join_eui,
                dev_eui,
                dev_nonce,
                mic,
                dr,
                freq,
                upinfo,
            } => UplinkMessageSpec::JoinRequest {
                mhdr: *mhdr,
                join_eui: join_eui@,
                dev_eui: dev_eui@,
                dev_nonce: *dev_nonce,
                mic: *mic,
                dr: *dr,
                freq: *freq,
                upinfo: *upinfo,
            },
            UplinkMessage::DataFrame {
                mhdr,
                dev_addr,
                fctrl,
                fcnt,
                fopts,
                fport,
                frm_payload,
                mic,
                dr,
                freq,
                upinfo,
            } => UplinkMessageSpec::DataFrame {
                mhdr: *mhdr,
                dev_addr: *dev_addr,
                fctrl: *fctrl,
                fcnt: *fcnt,
                fopts: fopts@,
                fport: *fport,
                frm_payload: frm_payload@,
                mic: *mic,
                dr: *dr,
                freq: *freq,
                upinfo: *upinfo,
            },
            UplinkMessage::Proprietary { frm_payload, dr, freq, upinfo } => UplinkMessageSpec::Proprietary {
                frm_payload: frm_payload@,
                dr: *dr,
                freq: *freq,
                upinfo: *upinfo,
            },
        }
    }
}

/// Truncating division (Rust's `/` on signed integers), for `b > 0`.
pub open spec fn tdiv(a: int, b: int) -> int {
    if a >= 0 {
        a / b
    } else {
        -((-a) / b)
    }
}

/// BasicStation EUI text of little-endian bytes: the bytes in reverse order,
/// each as two upper-case hex digits, separated by dashes.
pub open spec fn eui_text(b: Seq<u8>) -> Seq<char>
    decreases b.len(),
{
    if b.len() == 0 {
        Seq::empty()
    } else if b.len() == 1 {
        hex_byte_upper(b[0])
    } else {
        eui_text(b.drop_first()) + seq!['-'] + hex_byte_upper(b[0])
    }
}

/// The data rate index of an uplink, looked up in the DR table; -1 when the
/// table has no such data rate, which reports an unknown data rate to the
/// LNS.
pub open spec fn dr_of(tx: UplinkTxInfo, drs: Seq<(u32, u32)>) -> Result<i32, UplinkError> {
    match tx.modulation {
        None => Err(UplinkError::MissingModulation),
        Some(m) => match m.parameters {
            Some(ModulationParameters::Lora { bandwidth, spreading_factor }) => {
                let bw = (bandwidth / 1000) as u32;
                Ok(find_lora_dr(drs, spreading_factor, bw, 0) as i32)
            },
            Some(ModulationParameters::Fsk) => {
                Ok(find_fsk_dr(drs, 0) as i32)
            },
            _ => Err(UplinkError::UnknownModulation),
        },
    }
}

/// GPS time in microseconds.
pub open spec fn gps_micros(g: GpsTime) -> int {
    g.seconds * 1_000_000 + tdiv(g.nanos as int, 1000)
}

/// The GPS time of the uplink fits in an `i64` of microseconds.
pub open spec fn gps_fits(rx: UplinkRxInfo) -> bool {
    match rx.time_since_gps_epoch {
        Some(g) => i64::MIN <= g.seconds * 1_000_000 <= i64::MAX && i64::MIN <= gps_micros(g)
            <= i64::MAX,
        None => true,
    }
}

/// Whether the GPS time of an uplink fits in an `i64` of microseconds.
pub fn gps_time_fits(rx: &UplinkRxInfo) -> (r: bool)
    ensures
        r == gps_fits(*rx),
{
    match rx.time_since_gps_epoch {
        None => true,
        Some(g) => match g.seconds.checked_mul(1_000_000) {
            None => false,
            Some(us) => {
                let nanos = g.nanos as i64;
                us.checked_add(nanos / 1000).is_some()
            },
        },
    }
}

/// UpInfo of an uplink: rctx is the big-endian counter of the context (0 if
/// it is shorter than 4 bytes), gpstime is in microseconds (0 if unknown).
pub open spec fn upinfo_of(rx: UplinkRxInfo, xtime: i64) -> UpInfo {
    UpInfo {
        rctx: if rx.context@.len() >= 4 {
            be32(rx.context@) as i64
        } else {
            0
        },
        xtime,
        gpstime: match rx.time_since_gps_epoch {
            Some(g) => gps_micros(g) as i64,
            None => 0,
        },
    }
}

/// Data frame fields: FOpts as hex when present, FPort (-1 if none),
/// FRMPayload as hex, and the MIC in the last four bytes.
pub open spec fn data_frame_spec(phy: Seq<u8>, dr: i32, freq: u32, upinfo: UpInfo) -> UplinkMessageSpec {
    let len = phy.len() as int;
    let fctrl = phy[5];
    let fopts_len = fctrl as int % 16;
    let fhdr_len = 8 + fopts_len;
    let mic_start = len - 4;
    UplinkMessageSpec::DataFrame {
        mhdr: phy[0],
        dev_addr: le32(phy, 1) as i32,
        fctrl,
        fcnt: le16(phy, 6) as u16,
        fopts: if fopts_len > 0 && len >= fhdr_len {
            hex_lower(phy.subrange(8, fhdr_len))
        } else {
            Seq::empty()
        },
        fport: if fhdr_len < mic_start {
            phy[fhdr_len] as i32
        } else {
            -1i32
        },
        frm_payload: if fhdr_len + 1 < mic_start {
            hex_lower(phy.subrange(fhdr_len + 1, mic_start))
        } else {
            Seq::empty()
        },
        mic: le32(phy, mic_start) as i32,
        dr,
        freq,
        upinfo,
    }
}

/// The message for an uplink frame.
pub open spec fn uplink_spec(frame: UplinkFrame, drs: Seq<(u32, u32)>, xtime: i64) -> Result<
    UplinkMessageSpec,
    UplinkError,
> {
    let phy = frame.phy_payload@;
    let len = phy.len() as int;
    let mtype = phy[0] / 32;
    if len == 0 {
        Err(UplinkError::EmptyPhyPayload)
    } else if frame.tx_info is None {
        Err(UplinkError::MissingTxInfo)
    } else if frame.rx_info is None {
        Err(UplinkError::MissingRxInfo)
    } else {
        let tx = frame.tx_info->0;
        let freq = tx.frequency;
        let upinfo = upinfo_of(frame.rx_info->0, xtime);
        match dr_of(tx, drs) {
            Err(e) => Err(e),
            Ok(dr) => if mtype == 0 {
                if len < 23 {
                    Err(UplinkError::JoinRequestTooShort { len: len as usize })
                } else {
                    Ok(
                        UplinkMessageSpec::JoinRequest {
                            mhdr: phy[0],
                            join_eui: eui_text(phy.subrange(1, 9)),
                            dev_eui: eui_text(phy.subrange(9, 17)),
                            dev_nonce: le16(phy, 17) as u16,
                            mic: le32(phy, 19) as i32,
                            dr,
                            freq,
                            upinfo,
                        },
                    )
                }
            } else if mtype == 2 || mtype == 4 {
                if len < 12 {
                    Err(UplinkError::DataFrameTooShort { len: len as usize })
                } else {
                    Ok(data_frame_spec(phy, dr, freq, upinfo))
                }
            } else if mtype == 7 {
                Ok(
                    UplinkMessageSpec::Proprietary {
                        frm_payload: if len > 1 {
                            hex_lower(phy.subrange(1, len))
                        } else {
                            Seq::empty()
                        },
                        dr,
                        freq,
                        upinfo,
                    },
                )
            } else {
                Err(UplinkError::UnsupportedMType { mtype: mtype as u8 })
            },
        }
    }
}

/// The header of a data frame (MType 2 or 4) reads back from the bytes of
/// its PHYPayload: MHDR is byte 0, FCtrl byte 5, FCnt the little-endian 16
/// bits of bytes 6 and 7 (a frame written with any FCnt `n` reads back `n`),
/// FPort the byte after the FOpts when one remains before the four MIC
/// bytes (else -1), and the frequency is the uplink's.
pub proof fn law_data_frame_header(frame: UplinkFrame, drs: Seq<(u32, u32)>, xtime: i64, n: int)
    requires
        frame.phy_payload@.len() >= 12,
        frame.phy_payload@[0] / 32 == 2 || frame.phy_payload@[0] / 32 == 4,
        frame.tx_info matches Some(tx) && tx.modulation matches Some(m) && (m.parameters matches Some(
            ModulationParameters::Lora { .. },
        ) || m.parameters matches Some(ModulationParameters::Fsk)),
        frame.rx_info is Some,
    ensures
        ({
            let p = frame.phy_payload@;
            let fhdr = 8 + p[5] as int % 16;
            &&& uplink_spec(frame, drs, xtime) matches Ok(
                UplinkMessageSpec::DataFrame { mhdr, fctrl, fcnt, fport, freq, .. },
            )
            &&& mhdr == p[0]
            &&& fctrl == p[5]
            &&& fcnt as int == p[6] as int + 256 * p[7] as int
            &&& (0 <= n < 65536 && p[6] == n % 256 && p[7] == n / 256 ==> fcnt == n)
            &&& fport == (if fhdr < p.len() - 4 { p[fhdr] as i32 } else { -1i32 })
            &&& freq == frame.tx_info->0.frequency
        }),
{
    let p = frame.phy_payload@;
    assert((p[6] as int) + 256 * (p[7] as int) < 65536);
}

/// Convert a little-endian byte slice to a BasicStation EUI string
/// (big-endian, dash-separated upper-case hex: "XX-XX-XX-XX-XX-XX-XX-XX").
pub fn eui_from_le_bytes(bytes: &[u8]) -> (r: String)
    ensures
        r@ == eui_text(bytes@),
{
    let n = bytes.len();
    let mut out: Vec<char> = Vec::new();
    let mut k: usize = 0;
    while k < n
        invariant
            n == bytes@.len(),
            k <= n,
            out@ == eui_text(bytes@.subrange(n - k, n as int)),
        decreases n - k,
    {
        let b = bytes[n - 1 - k];
        let ghost prev = bytes@.subrange(n - k, n as int);
        let ghost next = bytes@.subrange(n - k - 1, n as int);
        proof {
            assert(next.drop_first() =~= prev);
            assert(next[0] == b);
        }
        if k > 0 {
            out.push('-');
        }
        push_hex_upper(&mut out, b);
        proof {
            if k == 0 {
                assert(out@ =~= hex_byte_upper(b));
            } else {
                assert(out@ =~= eui_text(prev) + seq!['-'] + hex_byte_upper(b));
            }
        }
        k = k + 1;
    }
    proof {
        assert(bytes@.subrange(0, n as int) =~= bytes@);
    }
    string_from_chars(&out)
}

/// Extract the data rate index from the uplink modulation.
fn modulation_to_dr(tx_info: &UplinkTxInfo, rc: &RouterConfigState) -> (r: Result<i32, UplinkError>)
    requires
        rc.drs@.len() <= i32::MAX,
    ensures
        r == dr_of(*tx_info, rc.drs@),
{
    match tx_info.modulation {
        None => Err(UplinkError::MissingModulation),
        Some(m) => match m.parameters {
            Some(ModulationParameters::Lora { bandwidth, spreading_factor }) => {
                let bw_khz = bandwidth / 1000;
                Ok(rc.sf_bw_to_dr(spreading_factor, bw_khz))
            },
            Some(ModulationParameters::Fsk) => {
                Ok(rc.fsk_to_dr())
            },
            _ => Err(UplinkError::UnknownModulation),
        },
    }
}

/// Build the UpInfo of an uplink.
fn build_upinfo(rx_info: &UplinkRxInfo, xtime: i64) -> (r: UpInfo)
    requires
        gps_fits(*rx_info),
    ensures
        r == upinfo_of(*rx_info, xtime),
{
    let ctx = &rx_info.context;
    let rctx: i64 = if ctx.len() >= 4 {
        let v: u64 = ctx[0] as u64 * 16777216 + ctx[1] as u64 * 65536 + ctx[2] as u64 * 256
            + ctx[3] as u64;
        (v as u32) as i64
    } else {
        0
    };
    let gpstime: i64 = match rx_info.time_since_gps_epoch {
        Some(g) => {
            let nanos = g.nanos as i64;
            g.seconds * 1_000_000 + nanos / 1_000
        },
        None => 0,
    };
    UpInfo { rctx, xtime, gpstime }
}

fn read_le16(d: &[u8], p: usize) -> (r: u16)
    requires
        p + 2 <= d@.len(),
    ensures
        r == le16(d@, p as int) as u16,
{
    (d[p] as u32 + 256 * (d[p + 1] as u32)) as u16
}

fn read_le32_i32(d: &[u8], p: usize) -> (r: i32)
    requires
        p + 4 <= d@.len(),
    ensures
        r == le32(d@, p as int) as i32,
{
    let v: u64 = d[p] as u64 + 256 * (d[p + 1] as u64) + 65536 * (d[p + 2] as u64) + 16777216 * (
    d[p + 3] as u64);
    (v as u32) as i32
}

fn hex_of_range(d: &[u8], a: usize, b: usize) -> (r: String)
    requires
        a <= b <= d@.len(),
    ensures
        r@ == hex_lower(d@.subrange(a as int, b as int)),
{
    hex_encode(slice_subrange(d, a, b))
}

fn build_data_frame(phy: &[u8], dr: i32, freq: u32, upinfo: UpInfo) -> (r: UplinkMessage)
    requires
        phy@.len() >= 12,
    ensures
        r.spec() == data_frame_spec(phy@, dr, freq, upinfo),
{
    let len = phy.len();
    let dev_addr = read_le32_i32(phy, 1);
    let fctrl = phy[5];
    let fopts_len = (fctrl % 16) as usize;
    let fcnt = read_le16(phy, 6);
    let fopts = if fopts_len > 0 && len >= 8 + fopts_len {
        hex_of_range(phy, 8, 8 + fopts_len)
    } else {
        String::new()
    };
    let fhdr_len = 8 + fopts_len;
    let mic_start = len - 4;
    let (fport, frm_payload) = if fhdr_len < mic_start {
        let fport = phy[fhdr_len] as i32;
        let payload = if fhdr_len + 1 < mic_start {
            hex_of_range(phy, fhdr_len + 1, mic_start)
        } else {
            String::new()
        };
        (fport, payload)
    } else {
        (-1, String::new())
    };
    let mic = read_le32_i32(phy, mic_start);
    UplinkMessage::DataFrame {
        mhdr: phy[0],
        dev_addr,
        fctrl,
        fcnt,
        fopts,
        fport,
        frm_payload,
        mic,
        dr,
        freq,
        upinfo,
    }
}

/// Convert an uplink frame into the BasicStation uplink message for the LNS
/// (the content that goes out as JSON),
/// reported with the given `xtime`.
pub fn frame_to_json(frame: &UplinkFrame, rc: &RouterConfigState, xtime: i64) -> (r: Result<
    UplinkMessage,
    UplinkError,
>)
    requires
        rc.drs@.len() <= i32::MAX,
        frame.rx_info matches Some(rx) ==> gps_fits(rx),
    ensures
        match uplink_spec(*frame, rc.drs@, xtime) {
            Ok(m) => r matches Ok(msg) && msg.spec() == m,
            Err(e) => r == Err::<UplinkMessage, UplinkError>(e),
        },
{
    let phy = frame.phy_payload.as_slice();
    let len = phy.len();
    if len == 0 {
        return Err(UplinkError::EmptyPhyPayload);
    }
    let mhdr = phy[0];
    let mtype = mhdr / 32;
    let tx_info = match &frame.tx_info {
        Some(t) => t,
        None => return Err(UplinkError::MissingTxInfo),
    };
    let rx_info = match &frame.rx_info {
        Some(r) => r,
        None => return Err(UplinkError::MissingRxInfo),
    };
    let freq = tx_info.frequency;
    let dr = match modulation_to_dr(tx_info, rc) {
        Ok(d) => d,
        Err(e) => return Err(e),
    };
    let upinfo = build_upinfo(rx_info, xtime);
    if mtype == 0 {
        // Join Request
        if len < 23 {
            return Err(UplinkError::JoinRequestTooShort { len });
        }
        let join_eui = eui_from_le_bytes(slice_subrange(phy, 1, 9));
        let dev_eui = eui_from_le_bytes(slice_subrange(phy, 9, 17));
        let dev_nonce = read_le16(phy, 17);
        let mic = read_le32_i32(phy, 19);
        Ok(UplinkMessage::JoinRequest { mhdr, join_eui, dev_eui, dev_nonce, mic, dr, freq, upinfo })
    } else if mtype == 2 || mtype == 4 {
        // Unconfirmed or confirmed data up
        if len < 12 {
            return Err(UplinkError::DataFrameTooShort { len });
        }
        Ok(build_data_frame(phy, dr, freq, upinfo))
    } else if mtype == 7 {
        // Proprietary
        let frm_payload = if len > 1 {
            hex_of_range(phy, 1, len)
        } else {
            String::new()
        };
        Ok(UplinkMessage::Proprietary { frm_payload, dr, freq, upinfo })
    } else {
        Err(UplinkError::UnsupportedMType { mtype })
    }
}

} // verus!
