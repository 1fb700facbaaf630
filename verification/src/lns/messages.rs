//! BasicStation messages, as plain values. The JSON encoding and decoding of
//! these is done by the application, which fills and reads them.
use vstd::prelude::*;

verus! {

// -- Downstream messages (LNS → Gateway) --

/// Router discovery response.
#[derive(Debug, Clone)]
pub struct RouterInfoResponse {
    pub router: Option<String>,
    pub muxs: Option<String>,
    pub uri: Option<String>,
    pub error: Option<String>,
}

/// router_config message from LNS. `max_eirp` is the maximum EIRP in whole dBm.
#[derive(Debug, Clone)]
pub struct RouterConfig {
    pub msgtype: String,
    /// Network ID filter array.
    pub net_id: Vec<u32>,
    /// JoinEUI filter ranges: [[start, end], ...].
    pub join_eui: Vec<Vec<u64>>,
    /// Region string (e.g., "EU868").
    pub region: String,
    /// Maximum EIRP in dBm.
    pub max_eirp: i32,
    /// Hardware spec string (e.g., "sx1301/1").
    pub hwspec: String,
    /// Frequency range [min_hz, max_hz].
    pub freq_range: Vec<u32>,
    /// Data rate definitions: [[SF, BW, DNONLY], ...]; SF 0 is FSK.
    pub drs: Vec<Vec<i32>>,
    /// SX1301/SX1302 concentrator configurations.
    pub sx1301_conf: Vec<Sx1301Conf>,
    /// Beacon configuration.
    pub bcning: Option<BeaconConfig>,
    /// Disable clear-channel assessment (debug).
    pub nocca: bool,
    /// Disable duty cycle (debug).
    pub nodc: bool,
    /// Disable dwell time (debug).
    pub nodwell: bool,
}

/// SX1301/SX1302 concentrator configuration from router_config.
#[derive(Debug, Clone, Copy)]
pub struct Sx1301Conf {
    pub radio_0: Option<RadioConf>,
    pub radio_1: Option<RadioConf>,
    pub chan_multi_sf_0: Option<ChannelConf>,
    pub chan_multi_sf_1: Option<ChannelConf>,
    pub chan_multi_sf_2: Option<ChannelConf>,
    pub chan_multi_sf_3: Option<ChannelConf>,
    pub chan_multi_sf_4: Option<ChannelConf>,
    pub chan_multi_sf_5: Option<ChannelConf>,
    pub chan_multi_sf_6: Option<ChannelConf>,
    pub chan_multi_sf_7: Option<ChannelConf>,
    pub chan_lora_std: Option<LoraStdChannelConf>,
    pub chan_fsk: Option<FskChannelConf>,
}

#[derive(Debug, Clone, Copy)]
pub struct RadioConf {
    pub enable: Option<bool>,
    pub freq: Option<u32>,
}

#[derive(Debug, Clone, Copy)]
pub struct ChannelConf {
    pub enable: Option<bool>,
    pub radio: Option<u8>,
    pub if_freq: Option<i32>,
}

#[derive(Debug, Clone, Copy)]
pub struct LoraStdChannelConf {
    pub enable: Option<bool>,
    pub radio: Option<u8>,
    pub if_freq: Option<i32>,
    pub bandwidth: Option<u32>,
    pub spread_factor: Option<u32>,
}

#[derive(Debug, Clone, Copy)]
pub struct FskChannelConf {
    pub enable: Option<bool>,
    pub radio: Option<u8>,
    pub if_freq: Option<i32>,
    pub bandwidth: Option<u32>,
    pub datarate: Option<u32>,
}

#[derive(Debug, Clone)]
pub struct BeaconConfig {
    pub dr: Option<u32>,
    pub layout: Option<Vec<u32>>,
    pub freqs: Option<Vec<u32>>,
}

/// Downlink message from LNS.
#[derive(Debug, Clone)]
pub struct DownlinkMessage {
    pub msgtype: String,
    /// Device EUI.
    pub dev_eui: Option<String>,
    /// Downlink class: 0=A, 1=B, 2=C.
    pub dc: Option<u8>,
    /// Device interaction ID.
    pub diid: Option<i64>,
    /// PHY payload (hex encoded).
    pub pdu: Option<String>,
    /// RX delay (Class A).
    pub rx_delay: Option<u8>,
    /// RX1 data rate index.
    pub rx1_dr: Option<i32>,
    /// RX1 frequency in Hz.
    pub rx1_freq: Option<u32>,
    /// RX2 data rate index.
    pub rx2_dr: Option<i32>,
    /// RX2 frequency in Hz.
    pub rx2_freq: Option<u32>,
    /// Data rate (Class B/C).
    pub dr: Option<i32>,
    /// Frequency in Hz (Class B/C).
    pub freq: Option<u32>,
    /// Priority (0-255).
    pub priority: Option<u8>,
    /// Extended time of the uplink being answered.
    pub xtime: Option<i64>,
    /// Radio context of the uplink being answered.
    pub rctx: Option<i64>,
    /// GPS time in microseconds.
    pub gpstime: Option<i64>,
}

/// Scheduled downlink message from LNS.
#[derive(Debug, Clone)]
pub struct DownlinkSchedule {
    pub msgtype: String,
    pub schedule: Vec<ScheduleEntry>,
}

#[derive(Debug, Clone)]
pub struct ScheduleEntry {
    pub pdu: Option<String>,
    pub dr: Option<i32>,
    pub freq: Option<u32>,
    pub priority: Option<u8>,
    pub gpstime: Option<i64>,
    pub rctx: Option<i64>,
}

// -- Upstream messages (Gateway → LNS) --

/// Version message sent on connection.
#[derive(Debug, Clone)]
pub struct VersionMessage {
    pub msgtype: String,
    pub station: String,
    pub firmware: String,
    pub package: String,
    pub model: String,
    pub protocol: u32,
    pub features: String,
}

/// Timesync request (upstream).
#[derive(Debug, Clone)]
pub struct TimesyncRequest {
    pub msgtype: String,
    pub txtime: i64,
}

} // verus!
