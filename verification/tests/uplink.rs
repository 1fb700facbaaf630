use rak_basicstation::config::Lns;
use rak_basicstation::lns::messages::{
    ChannelConf, FskChannelConf, LoraStdChannelConf, RadioConf, RouterConfig, Sx1301Conf,
};
use rak_basicstation::lns::router_config::{
    to_gateway_configuration, ChannelModulation, RouterConfigState,
};
use rak_basicstation::lns::uplink::{
    frame_to_json, GpsTime, Modulation, ModulationParameters, UpInfo, UplinkError, UplinkFrame,
    UplinkMessage, UplinkRxInfo, UplinkTxInfo,
};
use rak_basicstation::lns::downlink::DownlinkError;
use rak_basicstation::lns::messages::{DownlinkMessage, DownlinkSchedule, ScheduleEntry};
use rak_basicstation::lns::{
    discovery_base, end_session, get_cached_context, on_dnmsg, on_dnsched, on_router_config,
    on_timesync, parse_auth_token, prepare_uplink, send_ws_message, set_cups_tc_auth_headers,
    set_cups_tc_uri, start_session, uses_token_auth, LnsError, LnsState, SendOutcome,
};

fn router_config() -> RouterConfig {
    RouterConfig {
        msgtype: "router_config".to_string(),
        net_id: vec![0x13],
        join_eui: vec![vec![1, 2], vec![3], vec![4, 5]],
        region: "EU868".to_string(),
        max_eirp: 16,
        hwspec: "sx1301/1".to_string(),
        freq_range: vec![863_000_000, 870_000_000],
        drs: vec![
            vec![12, 125, 0],
            vec![11, 125, 0],
            vec![10, 125, 0],
            vec![9, 125, 0],
            vec![8, 125, 0],
            vec![7, 125, 0],
            vec![7, 250, 0],
            vec![0, 0, 0],
            vec![],
        ],
        sx1301_conf: vec![],
        bcning: None,
        nocca: false,
        nodc: false,
        nodwell: false,
    }
}

fn rc_state() -> RouterConfigState {
    RouterConfigState::from_router_config(&router_config())
}

fn lora(sf: u32, bw_hz: u32) -> Option<UplinkTxInfo> {
    Some(UplinkTxInfo {
        frequency: 868_100_000,
        modulation: Some(Modulation {
            parameters: Some(ModulationParameters::Lora { bandwidth: bw_hz, spreading_factor: sf }),
        }),
    })
}

fn rx(context: Vec<u8>, gps: Option<GpsTime>) -> Option<UplinkRxInfo> {
    Some(UplinkRxInfo { context, time_since_gps_epoch: gps })
}

fn join_request() -> Vec<u8> {
    let mut p = vec![0x00];
    p.extend_from_slice(&[0x35, 0xA2, 0x10, 0xFF, 0x01, 0xC0, 0x16, 0x00]); // JoinEUI
    p.extend_from_slice(&[0x08, 0x07, 0x06, 0x05, 0x04, 0x03, 0x02, 0x01]); // DevEUI
    p.extend_from_slice(&[0x34, 0x12]); // DevNonce
    p.extend_from_slice(&[0x01, 0x00, 0x00, 0x80]); // MIC
    p
}

#[test]
fn router_config_state_from_message() {
    let rc = rc_state();
    assert_eq!(rc.drs, vec![(12, 125), (11, 125), (10, 125), (9, 125), (8, 125), (7, 125), (7, 250), (0, 0), (0, 0)]);
    assert_eq!(rc.join_eui_ranges, vec![(1, 2), (4, 5)]);
    assert_eq!(rc.freq_range, (863_000_000, 870_000_000));
    assert_eq!(rc.net_ids, vec![0x13]);
    assert_eq!(rc.region, "EU868");
    assert_eq!(rc.tx_power_dbm, 16);
    let mut odd = router_config();
    odd.freq_range = vec![1];
    assert_eq!(RouterConfigState::from_router_config(&odd).freq_range, (0, 0));
}

#[test]
fn dr_lookups() {
    let rc = rc_state();
    assert_eq!(rc.sf_bw_to_dr(7, 125), 5);
    assert_eq!(rc.sf_bw_to_dr(7, 250), 6);
    assert_eq!(rc.sf_bw_to_dr(6, 125), -1);
    assert_eq!(rc.fsk_to_dr(), 7);
    assert_eq!(rc.dr_to_sf_bw(0), Some((12, 125_000)));
    assert_eq!(rc.dr_to_sf_bw(6), Some((7, 250_000)));
    assert_eq!(rc.dr_to_sf_bw(9), None);
    assert_eq!(rc.dr_to_sf_bw(-1), None);
    // Round trip: the DR found for (SF, BW) reads back as (SF, BW in Hz).
    let d = rc.sf_bw_to_dr(9, 125);
    assert_eq!(rc.dr_to_sf_bw(d), Some((9, 125_000)));
}

fn board() -> Sx1301Conf {
    let off = ChannelConf { enable: Some(false), radio: Some(0), if_freq: Some(0) };
    Sx1301Conf {
        radio_0: Some(RadioConf { enable: Some(true), freq: Some(867_500_000) }),
        radio_1: Some(RadioConf { enable: Some(true), freq: Some(868_500_000) }),
        chan_multi_sf_0: Some(ChannelConf { enable: Some(true), radio: Some(1), if_freq: Some(-400_000) }),
        chan_multi_sf_1: Some(off),
        chan_multi_sf_2: Some(ChannelConf { enable: Some(true), radio: None, if_freq: Some(-300_000) }),
        chan_multi_sf_3: None,
        chan_multi_sf_4: None,
        chan_multi_sf_5: None,
        chan_multi_sf_6: None,
        chan_multi_sf_7: None,
        chan_lora_std: Some(LoraStdChannelConf {
            enable: Some(true),
            radio: Some(1),
            if_freq: Some(-200_000),
            bandwidth: Some(250_000),
            spread_factor: Some(7),
        }),
        chan_fsk: Some(FskChannelConf {
            enable: Some(true),
            radio: Some(1),
            if_freq: Some(300_000),
            bandwidth: None,
            datarate: None,
        }),
    }
}

#[test]
fn channel_plan_from_router_config() {
    let mut rc = router_config();
    rc.sx1301_conf = vec![board()];
    let gc = to_gateway_configuration(&rc);
    assert_eq!(gc.channels.len(), 4);
    let lora = |i: usize| match &gc.channels[i].modulation {
        ChannelModulation::Lora { bandwidth, spreading_factors } => {
            (gc.channels[i].frequency, *bandwidth, spreading_factors.clone())
        }
        other => panic!("expected LoRa, got {:?}", other),
    };
    assert_eq!(lora(0), (868_100_000, 125_000, vec![7, 8, 9, 10, 11, 12]));
    assert_eq!(lora(1), (867_200_000, 125_000, vec![7, 8, 9, 10, 11, 12]));
    assert_eq!(lora(2), (868_300_000, 250_000, vec![7]));
    match &gc.channels[3].modulation {
        ChannelModulation::Fsk { bandwidth, bitrate } => {
            assert_eq!((gc.channels[3].frequency, *bandwidth, *bitrate), (868_800_000, 125_000, 50_000))
        }
        other => panic!("expected FSK, got {:?}", other),
    }
    // Two boards: their channels one after the other.
    rc.sx1301_conf = vec![board(), board()];
    assert_eq!(to_gateway_configuration(&rc).channels.len(), 8);
}

#[test]
fn join_request_message() {
    let rc = rc_state();
    let frame = UplinkFrame {
        phy_payload: join_request(),
        tx_info: lora(7, 125_000),
        rx_info: rx(vec![0x00, 0x00, 0x01, 0x00, 0xEE], Some(GpsTime { seconds: 1, nanos: 2_500 })),
    };
    match frame_to_json(&frame, &rc, 42).unwrap() {
        UplinkMessage::JoinRequest { mhdr, join_eui, dev_eui, dev_nonce, mic, dr, freq, upinfo } => {
            assert_eq!(mhdr, 0);
            assert_eq!(join_eui, "00-16-C0-01-FF-10-A2-35");
            assert_eq!(dev_eui, "01-02-03-04-05-06-07-08");
            assert_eq!(dev_nonce, 0x1234);
            assert_eq!(mic, 0x8000_0001u32 as i32);
            assert_eq!(dr, 5);
            assert_eq!(freq, 868_100_000);
            assert_eq!(upinfo, UpInfo { rctx: 256, xtime: 42, gpstime: 1_000_002 });
        }
        _ => panic!("expected a join request"),
    }
}

#[test]
fn data_frame_message() {
    let rc = rc_state();
    let phy = vec![
        0x40, 0x04, 0x03, 0x02, 0x01, 0x02, 0x0A, 0x00, 0xAA, 0xBB, 0x05, 0xDE, 0xAD, 0x01, 0x02, 0x03, 0x04,
    ];
    let frame = UplinkFrame {
        phy_payload: phy,
        tx_info: lora(12, 125_000),
        rx_info: rx(vec![0x01], Some(GpsTime { seconds: 1, nanos: -2_500 })),
    };
    match frame_to_json(&frame, &rc, 7).unwrap() {
        UplinkMessage::DataFrame { mhdr, dev_addr, fctrl, fcnt, fopts, fport, frm_payload, mic, dr, freq, upinfo } => {
            assert_eq!(mhdr, 0x40);
            assert_eq!(dev_addr, 0x0102_0304);
            assert_eq!(fctrl, 2);
            assert_eq!(fcnt, 10);
            assert_eq!(fopts, "aabb");
            assert_eq!(fport, 5);
            assert_eq!(frm_payload, "dead");
            assert_eq!(mic, 0x0403_0201);
            assert_eq!(dr, 0);
            assert_eq!(freq, 868_100_000);
            assert_eq!(upinfo, UpInfo { rctx: 0, xtime: 7, gpstime: 999_998 });
        }
        _ => panic!("expected a data frame"),
    }
    // No FPort, no payload.
    let frame = UplinkFrame {
        phy_payload: vec![0x80, 1, 2, 3, 4, 0x00, 0x01, 0x00, 9, 9, 9, 9],
        tx_info: lora(7, 125_000),
        rx_info: rx(vec![], None),
    };
    match frame_to_json(&frame, &rc, 0).unwrap() {
        UplinkMessage::DataFrame { fopts, fport, frm_payload, fcnt, .. } => {
            assert_eq!((fopts.as_str(), fport, frm_payload.as_str(), fcnt), ("", -1, "", 1));
        }
        _ => panic!("expected a data frame"),
    }
}

#[test]
fn proprietary_message() {
    let rc = rc_state();
    let frame = UplinkFrame { phy_payload: vec![0xE0, 0x01, 0xFF], tx_info: lora(7, 250_000), rx_info: rx(vec![], None) };
    match frame_to_json(&frame, &rc, 3).unwrap() {
        UplinkMessage::Proprietary { frm_payload, dr, freq, upinfo } => {
            assert_eq!(frm_payload, "01ff");
            assert_eq!(dr, 6);
            assert_eq!(freq, 868_100_000);
            assert_eq!(upinfo, UpInfo { rctx: 0, xtime: 3, gpstime: 0 });
        }
        _ => panic!("expected a proprietary frame"),
    }
}

#[test]
fn uplink_errors() {
    let rc = rc_state();
    let ok_rx = rx(vec![], None);
    let e = |f: UplinkFrame| frame_to_json(&f, &rc, 0).unwrap_err();
    assert_eq!(
        e(UplinkFrame { phy_payload: vec![], tx_info: lora(7, 125_000), rx_info: ok_rx.clone() }),
        UplinkError::EmptyPhyPayload
    );
    assert_eq!(
        e(UplinkFrame { phy_payload: vec![0x40], tx_info: None, rx_info: ok_rx.clone() }),
        UplinkError::MissingTxInfo
    );
    assert_eq!(
        e(UplinkFrame { phy_payload: vec![0x40], tx_info: lora(7, 125_000), rx_info: None }),
        UplinkError::MissingRxInfo
    );
    assert_eq!(
        e(UplinkFrame {
            phy_payload: vec![0x40],
            tx_info: Some(UplinkTxInfo { frequency: 1, modulation: None }),
            rx_info: ok_rx.clone()
        }),
        UplinkError::MissingModulation
    );
    assert_eq!(
        e(UplinkFrame {
            phy_payload: vec![0x40],
            tx_info: Some(UplinkTxInfo {
                frequency: 1,
                modulation: Some(Modulation { parameters: Some(ModulationParameters::LrFhss) })
            }),
            rx_info: ok_rx.clone()
        }),
        UplinkError::UnknownModulation
    );
    assert_eq!(
        e(UplinkFrame { phy_payload: vec![0x00; 22], tx_info: lora(7, 125_000), rx_info: ok_rx.clone() }),
        UplinkError::JoinRequestTooShort { len: 22 }
    );
    assert_eq!(
        e(UplinkFrame { phy_payload: vec![0x40; 11], tx_info: lora(7, 125_000), rx_info: ok_rx.clone() }),
        UplinkError::DataFrameTooShort { len: 11 }
    );
    assert_eq!(
        e(UplinkFrame { phy_payload: vec![0x60; 12], tx_info: lora(7, 125_000), rx_info: ok_rx }),
        UplinkError::UnsupportedMType { mtype: 3 }
    );
}

#[test]
fn prepare_uplink_caches_and_builds() {
    let mut state = LnsState::new(true);
    let frame = UplinkFrame {
        phy_payload: join_request(),
        tx_info: lora(7, 125_000),
        rx_info: rx(vec![0x00, 0x00, 0x01, 0x00, 0xEE], None),
    };
    // Not connected: dropped.
    assert!(prepare_uplink(&mut state, &frame, 0).unwrap().is_none());
    let (tx, mut rx_chan) = tokio::sync::mpsc::unbounded_channel::<String>();
    state.ws_sender = Some(tx);
    // No router_config yet: dropped.
    assert!(prepare_uplink(&mut state, &frame, 0).unwrap().is_none());
    assert_eq!(state.context_cache.len(), 0);
    state.router_config = Some(rc_state());
    start_session(&mut state);
    let (xtime, msg) = prepare_uplink(&mut state, &frame, 10).unwrap().unwrap();
    assert_eq!(xtime, (1i64 << 48) | 256);
    assert_eq!(get_cached_context(&state.context_cache, xtime), Some(vec![0x00, 0x00, 0x01, 0x00, 0xEE]));
    assert!(matches!(msg, UplinkMessage::JoinRequest { .. }));

    assert!(matches!(send_ws_message(&state, "hello".to_string()), Ok(SendOutcome::Queued { .. })));
    assert_eq!(rx_chan.try_recv().unwrap(), "hello");
    drop(rx_chan);
    match send_ws_message(&state, "lost".to_string()) {
        Err(e) => assert_eq!(e, LnsError::SendFailed { unsent: "lost".to_string() }),
        Ok(_) => panic!("the writer is gone"),
    }
    end_session(&mut state);
    assert!(state.ws_sender.is_none() && state.router_config.is_none());
    assert!(matches!(send_ws_message(&state, "dropped".to_string()), Ok(SendOutcome::Dropped)));
}

#[test]
fn sessions_wrap() {
    let mut state = LnsState::new(false);
    state.session = 254;
    start_session(&mut state);
    assert_eq!(state.session, 255);
    start_session(&mut state);
    assert_eq!(state.session, 0);
}

#[test]
fn discovery_base_priority() {
    let mut state = LnsState::new(false);
    let mut lns = Lns::default();
    lns.discovery_endpoint = "wss://disco".to_string();
    assert_eq!(discovery_base(&lns, &state), "wss://disco");
    lns.discovery_endpoint = String::new();
    assert_eq!(discovery_base(&lns, &state), "wss://localhost:8887");
    // A TC URI from CUPS is preferred over the configuration.
    lns.discovery_endpoint = "wss://disco".to_string();
    set_cups_tc_uri(&mut state, "wss://from-cups".to_string());
    assert_eq!(discovery_base(&lns, &state), "wss://from-cups");
    // An empty one is not.
    set_cups_tc_uri(&mut state, String::new());
    assert_eq!(discovery_base(&lns, &state), "wss://disco");
    lns.discovery_endpoint = String::new();
    lns.server = String::new();
    assert_eq!(discovery_base(&lns, &state), "");
}

#[test]
fn auth_headers() {
    let mut state = LnsState::new(false);
    let mut lns = Lns::default();
    assert!(!uses_token_auth(&lns));
    let cups = vec![("X-Key".to_string(), "v".to_string())];
    set_cups_tc_auth_headers(&mut state, cups.clone());
    assert_eq!(parse_auth_token(&lns, "", &state.cups_tc_auth_headers), cups);
    lns.tls_key = "/etc/key".to_string();
    assert!(uses_token_auth(&lns));
    assert_eq!(
        parse_auth_token(&lns, "  NNSXS.TOKEN\n", &state.cups_tc_auth_headers),
        vec![("Authorization".to_string(), "Bearer NNSXS.TOKEN".to_string())]
    );
    lns.tls_cert = "/etc/cert".to_string();
    assert!(!uses_token_auth(&lns));
}

fn class_c_msg() -> DownlinkMessage {
    DownlinkMessage {
        msgtype: "dnmsg".to_string(),
        dev_eui: None,
        dc: Some(2),
        diid: Some(4),
        pdu: Some("0a0b".to_string()),
        rx_delay: None,
        rx1_dr: None,
        rx1_freq: None,
        rx2_dr: Some(0),
        rx2_freq: Some(869_525_000),
        dr: None,
        freq: None,
        priority: None,
        xtime: None,
        rctx: None,
        gpstime: None,
    }
}

#[test]
fn lns_messages_update_state() {
    let mut state = LnsState::new(false);
    // Without a router_config, downlinks are dropped.
    assert!(on_dnmsg(&state, &class_c_msg()).is_none());
    let sched = DownlinkSchedule {
        msgtype: "dnsched".to_string(),
        schedule: vec![ScheduleEntry {
            pdu: Some("01".to_string()),
            dr: Some(99),
            freq: None,
            priority: None,
            gpstime: None,
            rctx: None,
        }],
    };
    assert!(on_dnsched(&state, &sched).is_none());

    // A router_config is kept and its (empty) channel plan returned.
    let gc = on_router_config(&mut state, &router_config());
    assert!(gc.channels.is_empty());
    assert_eq!(state.router_config.as_ref().unwrap().drs.len(), 9);

    let (frame, dntxed) = on_dnmsg(&state, &class_c_msg()).unwrap().unwrap().unwrap();
    assert_eq!(frame.downlink_id, 4);
    assert_eq!(frame.items[0].phy_payload, vec![0x0a, 0x0b]);
    assert_eq!(dntxed.dev_eui, "");
    let (frames, err) = on_dnsched(&state, &sched).unwrap();
    assert!(frames.is_empty());
    assert_eq!(err, Some(DownlinkError::UnknownDr { dr: 99 }));

    assert!(on_timesync(&mut state, None, Some(100), None).is_none());
    assert_eq!(state.gps_offset.offset, None);
    let reply = on_timesync(&mut state, Some(777), Some(100), Some(1_000_100)).unwrap();
    assert_eq!(state.gps_offset.offset, Some(1_000_000));
    assert_eq!(reply.msgtype, "timesync");
    assert_eq!(reply.txtime, 777);
    // A reply without GPS time still echoes txtime and leaves the offset alone.
    let reply = on_timesync(&mut state, Some(5), None, None).unwrap();
    assert_eq!(reply.txtime, 5);
    assert_eq!(state.gps_offset.offset, Some(1_000_000));
}

#[test]
fn unknown_data_rate_is_minus_one() {
    let rc = rc_state();
    let ok_rx = rx(vec![], None);
    let m = frame_to_json(
        &UplinkFrame { phy_payload: vec![0x40; 12], tx_info: lora(6, 125_000), rx_info: ok_rx.clone() },
        &rc,
        0,
    )
    .unwrap();
    match m {
        UplinkMessage::DataFrame { dr, .. } => assert_eq!(dr, -1),
        _ => panic!("expected a data frame"),
    }
    let m = frame_to_json(
        &UplinkFrame { phy_payload: join_request(), tx_info: lora(7, 500_000), rx_info: ok_rx.clone() },
        &rc,
        0,
    )
    .unwrap();
    match m {
        UplinkMessage::JoinRequest { dr, .. } => assert_eq!(dr, -1),
        _ => panic!("expected a join request"),
    }
    // FSK with no FSK entry in the table.
    let no_fsk = RouterConfigState { drs: vec![(7, 125)], ..rc.clone() };
    let fsk = Some(UplinkTxInfo {
        frequency: 1,
        modulation: Some(Modulation { parameters: Some(ModulationParameters::Fsk) }),
    });
    match frame_to_json(&UplinkFrame { phy_payload: vec![0x40; 12], tx_info: fsk.clone(), rx_info: ok_rx.clone() }, &no_fsk, 0)
        .unwrap()
    {
        UplinkMessage::DataFrame { dr, .. } => assert_eq!(dr, -1),
        _ => panic!("expected a data frame"),
    }
    // FSK with an FSK entry: its index.
    match frame_to_json(&UplinkFrame { phy_payload: vec![0x40; 12], tx_info: fsk, rx_info: ok_rx }, &rc, 0).unwrap() {
        UplinkMessage::DataFrame { dr, .. } => assert_eq!(dr, 7),
        _ => panic!("expected a data frame"),
    }
}
