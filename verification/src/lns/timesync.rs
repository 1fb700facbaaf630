//! GPS time synchronisation with the LNS.
use vstd::prelude::*;

use super::messages::TimesyncRequest;

verus! {

broadcast use vstd::string::group_string_axioms;

/// The GPS time offset: LNS-provided gpstime minus our xtime, in
/// microseconds, once calibrated.
#[derive(Debug, Clone, Copy)]
pub struct GpsTimeOffset {
    pub offset: Option<i64>,
}

impl GpsTimeOffset {
    /// Not calibrated yet.
    pub fn new() -> (r: Self)
        ensures
            r.offset is None,
    {
        GpsTimeOffset { offset: None }
    }
}

/// Update the GPS time offset from a timesync response.
pub fn update_gps_offset(state: &mut GpsTimeOffset, xtime: i64, gpstime: i64)
    requires
        i64::MIN <= gpstime - xtime <= i64::MAX,
    ensures
        final(state).offset == Some((gpstime - xtime) as i64),
{
    state.offset = Some(gpstime - xtime);
}

/// Get the current GPS time offset, if calibrated.
pub fn get_gps_offset(state: &GpsTimeOffset) -> (r: Option<i64>)
    ensures
        r == state.offset,
{
    state.offset
}

/// The timesync request to send.
pub fn build_timesync_request(txtime: i64) -> (r: TimesyncRequest)
    ensures
        r.msgtype@ == "timesync"@,
        r.txtime == txtime,
{
    TimesyncRequest { msgtype: "timesync".to_string(), txtime }
}

} // verus!
