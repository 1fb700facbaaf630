use rak_basicstation::lns::discovery::{discovery_result, gateway_id_to_id6, router_info_url, DiscoveryError};
use rak_basicstation::lns::downlink::{
    build_class_a_downlink, build_class_b_downlink, build_class_c_downlink, downlink_power,
    handle_dnmsg, handle_dnsched, handle_dnsched_entry, resolve_context, DownlinkError, Timing,
};
use rak_basicstation::lns::messages::{DownlinkMessage, DownlinkSchedule, RouterInfoResponse, ScheduleEntry};
use rak_basicstation::lns::router_config::RouterConfigState;
use rak_basicstation::lns::timesync::{build_timesync_request, get_gps_offset, update_gps_offset, GpsTimeOffset};
use rak_basicstation::lns::uplink::eui_from_le_bytes;
use rak_basicstation::lns::{
    cache_context, clear_context_cache, get_cached_context, is_mesh_context, sweep_context_cache,
    uplink_xtime, uplink_xtime_at, ContextCache, XtimeClock, CONTEXT_CACHE_TTL_NS,
    SYNTHETIC_XTIME_FLAG,
};

// ---------------------------------------------------------------------------
// Helpers
// ---------------------------------------------------------------------------

/// EU868-like DR table: DR0=SF12/125kHz … DR5=SF7/125kHz, DR6=SF7/250kHz.
fn eu868_rc() -> RouterConfigState {
    RouterConfigState {
        drs: vec![(12, 125), (11, 125), (10, 125), (9, 125), (8, 125), (7, 125), (7, 250)],
        net_ids: vec![],
        join_eui_ranges: vec![],
        freq_range: (863_000_000, 870_000_000),
        region: "EU868".to_string(),
        tx_power_dbm: 16,
    }
}

fn rc_with_power(tx_power_dbm: i32) -> RouterConfigState {
    RouterConfigState {
        drs: vec![],
        net_ids: vec![],
        join_eui_ranges: vec![],
        freq_range: (863_000_000, 870_000_000),
        region: "EU868".to_string(),
        tx_power_dbm,
    }
}

fn dnmsg(dc: u8, diid: i64, xtime: Option<i64>) -> DownlinkMessage {
    DownlinkMessage {
        msgtype: "dnmsg".to_string(),
        dev_eui: Some("0101010101010101".to_string()),
        dc: Some(dc),
        diid: Some(diid),
        pdu: Some("DEADBEEF".to_string()),
        rx_delay: Some(1),
        rx1_dr: Some(0),
        rx1_freq: Some(868_100_000),
        rx2_dr: Some(0),
        rx2_freq: Some(869_525_000),
        dr: None,
        freq: None,
        priority: None,
        xtime,
        rctx: None,
        gpstime: None,
    }
}

fn make_class_a_msg(xtime: i64) -> DownlinkMessage {
    dnmsg(0, 1, Some(xtime))
}

fn make_class_c_msg_with_xtime(xtime: i64) -> DownlinkMessage {
    dnmsg(2, 2, Some(xtime))
}

/// A mesh-relayed context: [1,2,3] + relay_id(4) + uplink_id(2).
fn mesh_ctx(uplink_id: u16) -> Vec<u8> {
    let mut c = vec![1, 2, 3, 0xf1, 0x0c, 0xab, 0x4e];
    c.extend_from_slice(&uplink_id.to_be_bytes());
    c
}

fn mesh_ctx_power() -> Vec<u8> {
    vec![1, 2, 3, 0xf1, 0x0c, 0xab, 0x4e, 0x02, 0xee]
}

fn tagged_ctx(tag: u8) -> Vec<u8> {
    vec![1, 2, 3, 0xf1, 0x0c, 0xab, 0x4e, 0x02, tag]
}

/// The xtime derivation that read the first four context bytes even for
/// mesh-relayed contexts.
fn first_bytes_xtime(session: u8, context: &[u8]) -> i64 {
    let count_us = u32::from_be_bytes([context[0], context[1], context[2], context[3]]) as i64;
    ((session as i64) << 48) | (count_us & 0x0000_FFFF_FFFF_FFFF)
}

fn enabled_cache() -> ContextCache {
    ContextCache::new(true)
}

// ---------------------------------------------------------------------------
// Discovery
// ---------------------------------------------------------------------------

#[test]
fn test_gateway_id_to_id6() {
    assert_eq!(gateway_id_to_id6("0016C001FF10A235").unwrap(), "0016:c001:ff10:a235");
    assert_eq!(gateway_id_to_id6("AA555A0000000000").unwrap(), "aa55:5a00:0000:0000");
}

#[test]
fn test_gateway_id_to_id6_invalid() {
    assert!(gateway_id_to_id6("0016C001").is_err());
    assert!(gateway_id_to_id6("").is_err());
}

#[test]
fn gateway_id_must_be_hex() {
    assert!(matches!(gateway_id_to_id6("ZZZZZZZZZZZZZZZZ"), Err(DiscoveryError::InvalidGatewayIdChar)));
    assert!(matches!(gateway_id_to_id6("0016C001FF10A23g"), Err(DiscoveryError::InvalidGatewayIdChar)));
    // Sixteen bytes that are not sixteen ASCII characters are refused, not split.
    assert!(matches!(gateway_id_to_id6("\u{e4}\u{e4}\u{e4}\u{e4}\u{e4}\u{e4}\u{e4}\u{e4}"), Err(DiscoveryError::InvalidGatewayIdChar)));
    assert_eq!(gateway_id_to_id6("abcdefABCDEF0123").unwrap(), "abcd:efab:cdef:0123");
}

#[test]
fn gateway_id_length_error_names_length() {
    match gateway_id_to_id6("0016C001") {
        Err(DiscoveryError::InvalidGatewayIdLength { len }) => assert_eq!(len, 8),
        other => panic!("unexpected {:?}", other),
    }
}

#[test]
fn discovery_urls_and_results() {
    assert_eq!(router_info_url("wss://lns:8887/"), "wss://lns:8887/router-info");
    assert_eq!(router_info_url("wss://lns:8887"), "wss://lns:8887/router-info");

    let ok = RouterInfoResponse {
        router: Some("0016:c001:ff10:a235".to_string()),
        muxs: Some("muxs-::0".to_string()),
        uri: Some("wss://lns:8887/traffic/eu".to_string()),
        error: None,
    };
    assert_eq!(discovery_result(&ok).unwrap(), "wss://lns:8887/traffic/eu");

    let err = RouterInfoResponse {
        router: None,
        muxs: None,
        uri: Some("wss://ignored".to_string()),
        error: Some("unknown router".to_string()),
    };
    match discovery_result(&err) {
        Err(DiscoveryError::RouterError { error }) => assert_eq!(error, "unknown router"),
        other => panic!("unexpected {:?}", other),
    }

    let none = RouterInfoResponse { router: None, muxs: None, uri: None, error: None };
    assert!(matches!(discovery_result(&none), Err(DiscoveryError::MissingUri)));
}

// ---------------------------------------------------------------------------
// Uplink helpers
// ---------------------------------------------------------------------------

#[test]
fn test_eui_from_le_bytes() {
    let bytes = [0x35, 0xA2, 0x10, 0xFF, 0x01, 0xC0, 0x16, 0x00];
    assert_eq!(eui_from_le_bytes(&bytes), "00-16-C0-01-FF-10-A2-35");
}

#[test]
fn eui_from_le_bytes_edges() {
    assert_eq!(eui_from_le_bytes(&[]), "");
    assert_eq!(eui_from_le_bytes(&[0xAB]), "AB");
}

// ---------------------------------------------------------------------------
// Mesh contexts and TX power
// ---------------------------------------------------------------------------

#[test]
fn test_mesh_context_detected() {
    assert!(is_mesh_context(&mesh_ctx_power()));
}

#[test]
fn test_non_mesh_contexts_rejected() {
    assert!(!is_mesh_context(&[0x01, 0x02, 0x03, 0xf1]));
    assert!(!is_mesh_context(&[1, 2, 3, 4, 5]));
    assert!(!is_mesh_context(&[9, 9, 9, 0, 0, 0, 0, 0, 0]));
    assert!(!is_mesh_context(&[]));
}

#[test]
fn test_mesh_downlink_gets_real_power() {
    assert_eq!(downlink_power(&rc_with_power(16), &mesh_ctx_power()), 16);
}

#[test]
fn test_direct_path_power_unchanged() {
    assert_eq!(downlink_power(&rc_with_power(16), &[0x01, 0x02, 0x03, 0xf1]), 0);
}

// ---------------------------------------------------------------------------
// Context cache
// ---------------------------------------------------------------------------

#[test]
fn test_cache_hit() {
    let mut cache = enabled_cache();
    let xtime: i64 = 0x0001_AABB_CCDD_EE01;
    let ctx = vec![0x01, 0x02, 0x03, 0x04, 0xAA, 0xBB];
    cache_context(&mut cache, xtime, ctx.clone(), 0);
    assert_eq!(get_cached_context(&cache, xtime), Some(ctx));
}

#[test]
fn test_cache_miss() {
    let cache = enabled_cache();
    assert_eq!(get_cached_context(&cache, 0x0001_DEAD_BEEF_0000), None);
}

#[test]
fn test_caching_disabled_returns_none() {
    let mut cache = ContextCache::new(false);
    let xtime: i64 = 0x0001_0000_0000_0042;
    cache_context(&mut cache, xtime, vec![0xAA, 0xBB, 0xCC, 0xDD], 0);
    assert_eq!(cache.len(), 1);
    assert_eq!(get_cached_context(&cache, xtime), None);
}

#[test]
fn test_sweep_removes_expired_entry() {
    let mut cache = enabled_cache();
    let xtime: i64 = 0x0001_0000_DEAD_0001;
    // Inserted one second more than the TTL before the sweep.
    cache_context(&mut cache, xtime, vec![1, 2, 3, 4], 0);
    sweep_context_cache(&mut cache, CONTEXT_CACHE_TTL_NS + 1_000_000_000);
    assert_eq!(get_cached_context(&cache, xtime), None);
}

#[test]
fn test_sweep_retains_fresh_entry() {
    let mut cache = enabled_cache();
    let xtime: i64 = 0x0001_0000_CAFE_0001;
    let ctx = vec![5, 6, 7, 8];
    cache_context(&mut cache, xtime, ctx.clone(), 7_000_000_000);
    sweep_context_cache(&mut cache, 7_000_000_000);
    assert_eq!(get_cached_context(&cache, xtime), Some(ctx));
}

#[test]
fn sweep_boundary_is_exclusive() {
    let mut cache = enabled_cache();
    cache_context(&mut cache, 1, vec![1], 0);
    cache_context(&mut cache, 2, vec![2], 1);
    // At exactly one TTL after the first insertion it is gone; the second stays.
    sweep_context_cache(&mut cache, CONTEXT_CACHE_TTL_NS);
    assert_eq!(get_cached_context(&cache, 1), None);
    assert_eq!(get_cached_context(&cache, 2), Some(vec![2]));
    assert_eq!(cache.len(), 1);
}

#[test]
fn cache_overwrite_and_clear() {
    let mut cache = enabled_cache();
    assert_eq!(cache_context(&mut cache, 5, vec![1], 0), 1);
    assert_eq!(cache_context(&mut cache, 5, vec![2], 0), 1);
    assert_eq!(cache_context(&mut cache, 6, vec![3], 0), 2);
    assert_eq!(get_cached_context(&cache, 5), Some(vec![2]));
    clear_context_cache(&mut cache);
    assert_eq!(cache.len(), 0);
    assert_eq!(get_cached_context(&cache, 6), None);
}

// ---------------------------------------------------------------------------
// xtime
// ---------------------------------------------------------------------------

#[test]
fn test_legacy_derivation_collapses_mesh_uplinks_onto_one_key() {
    let mut cache = enabled_cache();
    for id in [0x02ee_u16, 0x02ef, 0x02f0, 0x02f1] {
        let ctx = mesh_ctx(id);
        cache_context(&mut cache, first_bytes_xtime(1, &ctx), ctx, 0);
    }
    assert_eq!(cache.len(), 1, "reading a counter from mesh contexts puts all mesh uplinks under one cache key");
}

#[test]
fn test_mesh_uplinks_get_distinct_keys() {
    let mut cache = enabled_cache();
    let mut clock = XtimeClock::new();
    let ids = [0x02ee_u16, 0x02ef, 0x02f0, 0x02f1];
    for id in ids {
        let ctx = mesh_ctx(id);
        let x = uplink_xtime(&mut clock, 1, &ctx);
        cache_context(&mut cache, x, ctx, 0);
    }
    assert_eq!(cache.len(), ids.len(), "each mesh uplink must occupy its own cache entry");
}

#[test]
fn test_mesh_xtime_is_flagged_and_monotonic() {
    let mut clock = XtimeClock::new();
    let a = uplink_xtime(&mut clock, 1, &mesh_ctx(1));
    let b = uplink_xtime(&mut clock, 1, &mesh_ctx(2));
    assert!((a as u64) & SYNTHETIC_XTIME_FLAG != 0, "synthetic values carry bit 47");
    assert!(b > a, "synthesized counters strictly increase");
}

#[test]
fn test_direct_context_keeps_real_count_us() {
    let mut clock = XtimeClock::new();
    let ctx = vec![0x0f, 0xcd, 0x2e, 0x3c];
    let xtime = uplink_xtime(&mut clock, 1, &ctx);
    assert_eq!(xtime, first_bytes_xtime(1, &ctx));
    assert_eq!((xtime as u64) & SYNTHETIC_XTIME_FLAG, 0, "not flagged as synthetic");
}

#[test]
fn test_synthetic_and_real_spaces_cannot_collide() {
    let mut clock = XtimeClock::new();
    let real = uplink_xtime(&mut clock, 1, &[0xff, 0xff, 0xff, 0xff]);
    let synthetic = uplink_xtime(&mut clock, 1, &mesh_ctx(1));
    assert_eq!((real as u64) & SYNTHETIC_XTIME_FLAG, 0);
    assert!((synthetic as u64) & SYNTHETIC_XTIME_FLAG != 0);
    assert_ne!(real, synthetic);
}

#[test]
fn test_xtime_encoding_roundtrip() {
    let session: u8 = 0xAB;
    let count_us: u32 = 0x00CA_FE12;
    let xtime = ((session as i64) << 48) | (count_us as i64 & 0x0000_FFFF_FFFF_FFFF);
    let recovered = (xtime & 0x0000_FFFF_FFFF_FFFF) as u32;
    assert_eq!(recovered, count_us);
}

#[test]
fn test_xtime_session_bits_are_isolated() {
    for session in [0u8, 1, 127, 255] {
        let count_us: u32 = 0xFFFF_FFFF;
        let xtime = ((session as i64) << 48) | (count_us as i64 & 0x0000_FFFF_FFFF_FFFF);
        let recovered_count = (xtime & 0x0000_FFFF_FFFF_FFFF) as u32;
        let recovered_session = ((xtime >> 48) & 0xFF) as u8;
        assert_eq!(recovered_count, count_us);
        assert_eq!(recovered_session, session);
    }
}

#[test]
fn synthetic_counter_with_given_clock_readings() {
    let mut clock = XtimeClock::new();
    // The clock reading is taken when it moved on.
    let a = uplink_xtime_at(&mut clock, 2, &mesh_ctx(1), 1_000);
    assert_eq!(a, (2i64 << 48) | (1i64 << 47) | 1_000);
    // A reading that did not move on gives one more than the last value.
    let b = uplink_xtime_at(&mut clock, 2, &mesh_ctx(2), 900);
    assert_eq!(b, (2i64 << 48) | (1i64 << 47) | 1_001);
    // A short context has no counter either.
    let c = uplink_xtime_at(&mut clock, 2, &[0x01, 0x02], 5_000);
    assert_eq!(c, (2i64 << 48) | (1i64 << 47) | 5_000);
    // A plain context keeps its counter and leaves the clock state alone.
    let d = uplink_xtime_at(&mut clock, 3, &[0x00, 0x00, 0x01, 0x00], 9_000);
    assert_eq!(d, (3i64 << 48) | 256);
    let e = uplink_xtime_at(&mut clock, 3, &mesh_ctx(3), 0);
    assert_eq!(e, (3i64 << 48) | (1i64 << 47) | 5_001);
}

// ---------------------------------------------------------------------------
// Matching a downlink back to its uplink
// ---------------------------------------------------------------------------

#[test]
fn test_verbatim_echo_resolves_with_zero_offset() {
    let mut cache = enabled_cache();
    let uplink = 1_000_000_000i64;
    cache_context(&mut cache, uplink, tagged_ctx(0xaa), 0);
    let r = resolve_context(&cache, uplink, 0, 5);
    assert_eq!(r.context, tagged_ctx(0xaa));
    assert_eq!(r.offset_secs, 0);
    assert_eq!(5 + r.offset_secs, 5);
}

#[test]
fn test_offset_echo_resolves_and_restores_timing() {
    let mut cache = enabled_cache();
    let uplink = 2_000_000_000i64;
    cache_context(&mut cache, uplink, tagged_ctx(0xbb), 0);
    let echoed = uplink + 4 * 1_000_000;
    let r = resolve_context(&cache, echoed, 0, 1);
    assert_eq!(r.context, tagged_ctx(0xbb), "must find the uplink 4s back");
    assert_eq!(r.offset_secs, 4);
    assert_eq!(1 + r.offset_secs, 5, "reconstructed JOIN_ACCEPT_DELAY1");
}

#[test]
fn test_miss_falls_back_to_count_us_and_zero_offset() {
    let cache = enabled_cache();
    let r = resolve_context(&cache, 9_999_999_999, 0x0102_0304, 1);
    assert_eq!(r.context, 0x0102_0304u32.to_be_bytes().to_vec());
    assert_eq!(r.offset_secs, 0, "fallback must not shift timing");
}

#[test]
fn test_ambiguous_match_is_refused() {
    let mut cache = enabled_cache();
    let a = 3_000_000_000i64;
    cache_context(&mut cache, a, tagged_ctx(0xcc), 0);
    cache_context(&mut cache, a + 3 * 1_000_000, tagged_ctx(0xdd), 0);
    let r = resolve_context(&cache, a + 4 * 1_000_000, 0x0102_0304, 1);
    assert_eq!(
        r.context,
        0x0102_0304u32.to_be_bytes().to_vec(),
        "ambiguous match must fall back, never pick one arbitrarily"
    );
    assert_eq!(r.offset_secs, 0);
}

#[test]
fn test_probe_window_bounded_by_rx_delay() {
    let mut cache = enabled_cache();
    let uplink = 4_000_000_000i64;
    cache_context(&mut cache, uplink, tagged_ctx(0xee), 0);
    let r = resolve_context(&cache, uplink + 15 * 1_000_000, 0x0102_0304, 1);
    assert_eq!(r.context, 0x0102_0304u32.to_be_bytes().to_vec());
}

#[test]
fn probe_window_reaches_its_last_offset() {
    let mut cache = enabled_cache();
    let uplink = 4_000_000_000i64;
    cache_context(&mut cache, uplink, tagged_ctx(0xee), 0);
    let r = resolve_context(&cache, uplink + 14 * 1_000_000, 0, 1);
    assert_eq!(r.context, tagged_ctx(0xee));
    assert_eq!(r.offset_secs, 14);
}

#[test]
fn disabled_cache_is_never_matched() {
    let mut cache = ContextCache::new(false);
    cache_context(&mut cache, 1_000_000_000, tagged_ctx(1), 0);
    let r = resolve_context(&cache, 1_000_000_000, 0x0A0B_0C0D, 1);
    assert_eq!(r.context, vec![0x0A, 0x0B, 0x0C, 0x0D]);
    assert_eq!(r.offset_secs, 0);
}

// ---------------------------------------------------------------------------
// Class A / B / C
// ---------------------------------------------------------------------------

#[test]
fn test_class_a_uses_cached_context() {
    let mut cache = enabled_cache();
    let session: u8 = 0x01;
    let count_us: u32 = 0x0000_1234;
    let xtime = ((session as i64) << 48) | count_us as i64;
    let full_ctx = vec![0x00, 0x00, 0x12, 0x34, 0xAA, 0xBB, 0xCC, 0xDD];
    cache_context(&mut cache, xtime, full_ctx.clone(), 0);

    let msg = make_class_a_msg(xtime);
    let rc = eu868_rc();
    let frame = build_class_a_downlink(&msg, &rc, &cache, &[0xDE, 0xAD, 0xBE, 0xEF]).unwrap();
    for item in &frame.items {
        assert_eq!(item.tx_info.context, full_ctx, "expected full cached context in tx_info");
    }
}

#[test]
fn test_class_a_falls_back_to_count_us_on_cache_miss() {
    let cache = enabled_cache();
    let session: u8 = 0x02;
    let count_us: u32 = 0x0000_5678;
    let xtime = ((session as i64) << 48) | count_us as i64;
    let msg = make_class_a_msg(xtime);
    let rc = eu868_rc();
    let frame = build_class_a_downlink(&msg, &rc, &cache, &[0xDE, 0xAD, 0xBE, 0xEF]).unwrap();
    let expected_fallback = count_us.to_be_bytes().to_vec();
    for item in &frame.items {
        assert_eq!(item.tx_info.context, expected_fallback, "expected 4-byte count_us fallback");
    }
}

#[test]
fn test_class_c_uses_cached_context() {
    let mut cache = enabled_cache();
    let session: u8 = 0x03;
    let count_us: u32 = 0x0000_ABCD;
    let xtime = ((session as i64) << 48) | count_us as i64;
    let full_ctx = vec![0x00, 0x00, 0xAB, 0xCD, 0x11, 0x22, 0x33, 0x44];
    cache_context(&mut cache, xtime, full_ctx.clone(), 0);
    let msg = make_class_c_msg_with_xtime(xtime);
    let rc = eu868_rc();
    let frame = build_class_c_downlink(&msg, &rc, &cache, &[0xDE, 0xAD, 0xBE, 0xEF]).unwrap();
    for item in &frame.items {
        assert_eq!(item.tx_info.context, full_ctx, "expected full cached context in tx_info");
    }
}

#[test]
fn test_class_c_falls_back_to_count_us_on_cache_miss() {
    let cache = enabled_cache();
    let session: u8 = 0x04;
    let count_us: u32 = 0x0000_EF01;
    let xtime = ((session as i64) << 48) | count_us as i64;
    let msg = make_class_c_msg_with_xtime(xtime);
    let rc = eu868_rc();
    let frame = build_class_c_downlink(&msg, &rc, &cache, &[0xDE, 0xAD, 0xBE, 0xEF]).unwrap();
    let expected_fallback = count_us.to_be_bytes().to_vec();
    for item in &frame.items {
        assert_eq!(item.tx_info.context, expected_fallback, "expected 4-byte count_us fallback");
    }
}

#[test]
fn class_a_windows() {
    let cache = enabled_cache();
    let xtime = (1i64 << 48) | 0x1234;
    let mut msg = make_class_a_msg(xtime);
    msg.rx_delay = Some(5);
    msg.rx1_dr = Some(5);
    let frame = build_class_a_downlink(&msg, &eu868_rc(), &cache, &[0xDE, 0xAD]).unwrap();
    assert_eq!(frame.downlink_id, 1);
    assert_eq!(frame.items.len(), 2);
    let rx1 = &frame.items[0];
    assert_eq!(rx1.phy_payload, vec![0xDE, 0xAD]);
    assert_eq!(rx1.tx_info.frequency, 868_100_000);
    assert_eq!(rx1.tx_info.spreading_factor, 7);
    assert_eq!(rx1.tx_info.bandwidth, 125_000);
    assert_eq!(rx1.tx_info.power, 0);
    assert_eq!(rx1.tx_info.timing, Timing::Delay { seconds: 5 });
    let rx2 = &frame.items[1];
    assert_eq!(rx2.tx_info.frequency, 869_525_000);
    assert_eq!(rx2.tx_info.spreading_factor, 12);
    assert_eq!(rx2.tx_info.timing, Timing::Delay { seconds: 6 });

    // Without an xtime there is nothing to answer.
    let no_xtime = dnmsg(0, 1, None);
    assert_eq!(
        build_class_a_downlink(&no_xtime, &eu868_rc(), &cache, &[1]).unwrap_err(),
        DownlinkError::MissingXtime
    );

    // A window whose DR is unknown is left out.
    let mut unknown = make_class_a_msg(xtime);
    unknown.rx1_dr = Some(42);
    let frame = build_class_a_downlink(&unknown, &eu868_rc(), &cache, &[1]).unwrap();
    assert_eq!(frame.items.len(), 1);
    assert_eq!(frame.items[0].tx_info.frequency, 869_525_000);
}

#[test]
fn mesh_downlink_carries_power_and_context() {
    let mut cache = enabled_cache();
    let xtime = (1i64 << 48) | (1i64 << 47) | 77;
    cache_context(&mut cache, xtime, mesh_ctx_power(), 0);
    let frame = build_class_a_downlink(&make_class_a_msg(xtime), &eu868_rc(), &cache, &[1]).unwrap();
    for item in &frame.items {
        assert_eq!(item.tx_info.context, mesh_ctx_power());
        assert_eq!(item.tx_info.power, 16);
    }
}

#[test]
fn class_b_uses_gps_time() {
    let mut msg = dnmsg(1, 7, None);
    msg.dr = Some(3);
    msg.freq = Some(869_525_000);
    msg.gpstime = Some(1_234_567_890);
    let frame = build_class_b_downlink(&msg, &eu868_rc(), &[0xAA]).unwrap();
    assert_eq!(frame.downlink_id, 7);
    assert_eq!(frame.items.len(), 1);
    let it = &frame.items[0];
    assert_eq!(it.tx_info.spreading_factor, 9);
    assert_eq!(it.tx_info.bandwidth, 125_000);
    assert_eq!(it.tx_info.frequency, 869_525_000);
    assert_eq!(it.tx_info.timing, Timing::GpsEpoch { seconds: 1234, nanos: 567_890_000 });
    assert!(it.tx_info.context.is_empty());

    msg.dr = Some(99);
    assert_eq!(
        build_class_b_downlink(&msg, &eu868_rc(), &[0xAA]).unwrap_err(),
        DownlinkError::UnknownDr { dr: 99 }
    );
}

#[test]
fn class_c_without_xtime_is_immediate_on_rx2() {
    let msg = dnmsg(2, 3, None);
    let frame = build_class_c_downlink(&msg, &eu868_rc(), &enabled_cache(), &[0x01]).unwrap();
    assert_eq!(frame.items.len(), 1);
    let it = &frame.items[0];
    assert_eq!(it.tx_info.frequency, 869_525_000);
    assert_eq!(it.tx_info.timing, Timing::Immediately);
    assert_eq!(it.tx_info.power, 0);
    assert!(it.tx_info.context.is_empty());
}

#[test]
fn dnmsg_decodes_pdu_and_reports_dntxed() {
    let cache = enabled_cache();
    let mut msg = make_class_a_msg((1i64 << 48) | 5);
    msg.rctx = Some(9);
    msg.gpstime = Some(11);
    let (frame, dntxed) = handle_dnmsg(&msg, &eu868_rc(), &cache).unwrap().unwrap();
    assert_eq!(frame.items[0].phy_payload, vec![0xDE, 0xAD, 0xBE, 0xEF]);
    assert_eq!(dntxed.diid, 1);
    assert_eq!(dntxed.dev_eui, "0101010101010101");
    assert_eq!(dntxed.rctx, 9);
    assert_eq!(dntxed.xtime, (1i64 << 48) | 5);
    assert_eq!(dntxed.gpstime, 11);
}

#[test]
fn dnmsg_errors() {
    let cache = enabled_cache();
    let mut msg = make_class_a_msg(5);
    msg.pdu = None;
    assert_eq!(handle_dnmsg(&msg, &eu868_rc(), &cache).unwrap_err(), DownlinkError::MissingPdu);
    msg.pdu = Some("XYZ".to_string());
    assert_eq!(handle_dnmsg(&msg, &eu868_rc(), &cache).unwrap_err(), DownlinkError::InvalidPdu);
    msg.pdu = Some("ABC".to_string());
    assert_eq!(handle_dnmsg(&msg, &eu868_rc(), &cache).unwrap_err(), DownlinkError::InvalidPdu);
    msg.pdu = Some("abcd".to_string());
    msg.dc = Some(3);
    assert!(handle_dnmsg(&msg, &eu868_rc(), &cache).unwrap().is_none());
}

#[test]
fn dnsched_entries() {
    let rc = eu868_rc();
    let entry = ScheduleEntry {
        pdu: Some("0102".to_string()),
        dr: Some(5),
        freq: Some(869_525_000),
        priority: None,
        gpstime: Some(2_000_001),
        rctx: None,
    };
    let f = handle_dnsched_entry(&entry, &rc).unwrap().unwrap();
    assert_eq!(f.downlink_id, 0);
    assert_eq!(f.items[0].phy_payload, vec![1, 2]);
    assert_eq!(f.items[0].tx_info.timing, Timing::GpsEpoch { seconds: 2, nanos: 1000 });

    let no_pdu = ScheduleEntry { pdu: None, ..entry.clone() };
    assert!(handle_dnsched_entry(&no_pdu, &rc).unwrap().is_none());

    let bad_dr = ScheduleEntry { dr: Some(50), ..entry.clone() };
    assert_eq!(handle_dnsched_entry(&bad_dr, &rc).unwrap_err(), DownlinkError::UnknownDr { dr: 50 });

    let bad_pdu = ScheduleEntry { pdu: Some("0".to_string()), ..entry.clone() };
    assert_eq!(handle_dnsched_entry(&bad_pdu, &rc).unwrap_err(), DownlinkError::InvalidPdu);

    // The frames before a failing entry are kept; the rest is dropped.
    let sched = DownlinkSchedule {
        msgtype: "dnsched".to_string(),
        schedule: vec![entry.clone(), no_pdu, entry.clone(), bad_dr, entry.clone()],
    };
    let (frames, err) = handle_dnsched(&sched, &rc);
    assert_eq!(frames.len(), 2);
    assert_eq!(err, Some(DownlinkError::UnknownDr { dr: 50 }));

    let all_ok = DownlinkSchedule { msgtype: "dnsched".to_string(), schedule: vec![entry.clone(), entry] };
    let (frames, err) = handle_dnsched(&all_ok, &rc);
    assert_eq!(frames.len(), 2);
    assert_eq!(err, None);
}

#[test]
fn dnsched_fsk_dr_gives_fsk_frame() {
    let mut rc = eu868_rc();
    rc.drs.push((0, 0));
    let entry = ScheduleEntry {
        pdu: Some("01".to_string()),
        dr: Some(7),
        freq: Some(868_800_000),
        priority: None,
        gpstime: None,
        rctx: None,
    };
    let f = handle_dnsched_entry(&entry, &rc).unwrap().unwrap();
    assert_eq!(f.items.len(), 1);
    assert_eq!(f.items[0].phy_payload, vec![1]);
    assert_eq!(f.items[0].tx_info.spreading_factor, 0);
    assert_eq!(f.items[0].tx_info.frequency, 868_800_000);
    let sched = DownlinkSchedule { msgtype: "dnsched".to_string(), schedule: vec![entry.clone(), entry] };
    let (frames, err) = handle_dnsched(&sched, &rc);
    assert_eq!(frames.len(), 2);
    assert_eq!(err, None);
}

// ---------------------------------------------------------------------------
// Timesync
// ---------------------------------------------------------------------------

#[test]
fn gps_offset_read_after_write() {
    let mut state = GpsTimeOffset::new();
    assert_eq!(get_gps_offset(&state), None);
    update_gps_offset(&mut state, 1_000, 1_500_000);
    assert_eq!(get_gps_offset(&state), Some(1_499_000));
    update_gps_offset(&mut state, 10, 5);
    assert_eq!(get_gps_offset(&state), Some(-5));
    let req = build_timesync_request(42);
    assert_eq!(req.msgtype, "timesync");
    assert_eq!(req.txtime, 42);
}
