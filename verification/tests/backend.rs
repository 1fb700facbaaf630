use rak_basicstation::backend::semtech_udp::{
    apply_tx_ack, classify_packet, clean_downlink_cache, clone_frame, downlink_token,
    gateway_id_ready, get_downlink_cache, handle_tx_ack, initial_ack_items, record_downlink,
    set_downlink_cache, set_gateway_id, should_forward, CrcStatus, DownlinkCache, DownlinkCacheStore,
    GatewayIdError, PacketKind, TxAckAction, TxAckError, TxAckOutcome, TxAckStatus,
    DOWNLINK_CACHE_TTL_NS,
};
use rak_basicstation::config::Filters;
use rak_basicstation::lns::downlink::{DownlinkFrame, DownlinkFrameItem, DownlinkTxInfo, Timing};

fn frame(downlink_id: u32, n: usize) -> DownlinkFrame {
    let mut items = Vec::new();
    for k in 0..n {
        items.push(DownlinkFrameItem {
            phy_payload: vec![k as u8, 0xAA],
            tx_info: DownlinkTxInfo {
                frequency: 868_100_000 + k as u32,
                power: 14,
                bandwidth: 125_000,
                spreading_factor: 7,
                timing: Timing::Delay { seconds: 1 + k as i64 },
                context: vec![1, 2, 3, 4],
            },
        });
    }
    DownlinkFrame { downlink_id, items }
}

#[test]
fn packets_are_classified_by_byte_3() {
    assert_eq!(classify_packet(&[2, 0, 0]), PacketKind::TooShort);
    assert_eq!(classify_packet(&[2, 1, 2, 0x00]), PacketKind::PushData);
    assert_eq!(classify_packet(&[2, 1, 2, 0x02, 9]), PacketKind::PullData);
    assert_eq!(classify_packet(&[2, 1, 2, 0x05]), PacketKind::TxAck);
    assert_eq!(classify_packet(&[2, 1, 2, 0x04]), PacketKind::Unknown { cid: 4 });
}

#[test]
fn crc_filters() {
    let f = Filters::default();
    assert!(should_forward(None, &f));
    assert!(should_forward(Some(CrcStatus::CrcOk), &f));
    assert!(!should_forward(Some(CrcStatus::BadCrc), &f));
    assert!(!should_forward(Some(CrcStatus::NoCrc), &f));
    let all = Filters { forward_crc_ok: false, forward_crc_invalid: true, forward_crc_missing: true };
    assert!(!should_forward(Some(CrcStatus::CrcOk), &all));
    assert!(should_forward(Some(CrcStatus::BadCrc), &all));
    assert!(should_forward(Some(CrcStatus::NoCrc), &all));
}

#[test]
fn tx_ack_moves_on_or_stops() {
    let mut acks = initial_ack_items(3);
    assert_eq!(acks, vec![TxAckStatus::Ignored; 3]);
    assert_eq!(apply_tx_ack(&mut acks, 0, TxAckStatus::TooLate), Ok(TxAckOutcome::RetryNext { index: 1 }));
    assert_eq!(apply_tx_ack(&mut acks, 1, TxAckStatus::Success), Ok(TxAckOutcome::Done));
    assert_eq!(acks, vec![TxAckStatus::TooLate, TxAckStatus::Success, TxAckStatus::Ignored]);
    assert_eq!(apply_tx_ack(&mut acks, 2, TxAckStatus::TxFreq), Ok(TxAckOutcome::Done));
    assert_eq!(
        apply_tx_ack(&mut acks, 3, TxAckStatus::Success),
        Err(TxAckError::IndexOutOfBounds { index: 3, len: 3 })
    );
    assert_eq!(acks, vec![TxAckStatus::TooLate, TxAckStatus::Success, TxAckStatus::TxFreq]);
}

#[test]
fn tokens_and_gateway_id() {
    assert_eq!(downlink_token(0x0001_2345), 0x2345);
    assert_eq!(gateway_id_ready(&String::new()), Err(GatewayIdError::NotSet));
    let mut id = String::new();
    set_gateway_id(&mut id, &[0x00, 0x16, 0xC0, 0x01, 0xFF, 0x10, 0xA2, 0x35]);
    assert_eq!(id, "0016c001ff10a235");
    assert_eq!(gateway_id_ready(&id), Ok("0016c001ff10a235".to_string()));
}

#[test]
fn pending_downlink_read_after_write_and_expiry() {
    let mut store = DownlinkCacheStore::new();
    let dc = DownlinkCache { expire_ns: 100, frame: frame(7, 2), ack_items: initial_ack_items(2), index: 0 };
    set_downlink_cache(&mut store, 7, dc);
    assert_eq!(store.len(), 1);
    let got = get_downlink_cache(&mut store, 7, 100).unwrap();
    assert_eq!(got.frame.downlink_id, 7);
    assert_eq!(got.frame.items.len(), 2);
    assert_eq!(got.frame.items[1].tx_info.frequency, 868_100_001);
    assert_eq!(got.ack_items, vec![TxAckStatus::Ignored; 2]);
    assert!(get_downlink_cache(&mut store, 8, 100).is_none());
    // One nanosecond past its expiry the entry is dropped.
    assert!(get_downlink_cache(&mut store, 7, 101).is_none());
    assert_eq!(store.len(), 0);
}

#[test]
fn pending_downlink_replace_and_clean() {
    let mut store = DownlinkCacheStore::new();
    set_downlink_cache(&mut store, 1, DownlinkCache { expire_ns: 10, frame: frame(1, 1), ack_items: vec![], index: 0 });
    set_downlink_cache(&mut store, 2, DownlinkCache { expire_ns: 50, frame: frame(2, 1), ack_items: vec![], index: 0 });
    set_downlink_cache(&mut store, 1, DownlinkCache { expire_ns: 60, frame: frame(3, 1), ack_items: vec![], index: 0 });
    assert_eq!(store.len(), 2);
    clean_downlink_cache(&mut store, 55);
    assert_eq!(store.len(), 1);
    assert_eq!(get_downlink_cache(&mut store, 1, 55).unwrap().frame.downlink_id, 3);
}

#[test]
fn tx_ack_walks_the_attempts() {
    let mut store = DownlinkCacheStore::new();
    let token = record_downlink(&mut store, frame(0x1_0042, 2), initial_ack_items(2), 0, 1_000);
    assert_eq!(token, 0x0042);
    let dc = get_downlink_cache(&mut store, token, 1_000).unwrap();
    assert_eq!(dc.expire_ns, 1_000 + DOWNLINK_CACHE_TTL_NS);

    // The first attempt failed: the second is now pending.
    match handle_tx_ack(&mut store, token, TxAckStatus::TooEarly, 2_000).unwrap() {
        TxAckAction::Resend { frame, index, token: t } => {
            assert_eq!(index, 1);
            assert_eq!(t, 0x0042);
            assert_eq!(frame.downlink_id, 0x1_0042);
            assert_eq!(frame.items.len(), 2);
        }
        other => panic!("unexpected {:?}", other),
    }
    let dc = get_downlink_cache(&mut store, token, 2_000).unwrap();
    assert_eq!(dc.index, 1);
    assert_eq!(dc.ack_items, vec![TxAckStatus::TooEarly, TxAckStatus::Ignored]);
    assert_eq!(dc.expire_ns, 2_000 + DOWNLINK_CACHE_TTL_NS);

    // The last attempt is acknowledged: done.
    match handle_tx_ack(&mut store, token, TxAckStatus::CollisionPacket, 3_000).unwrap() {
        TxAckAction::Done { downlink_id } => assert_eq!(downlink_id, 0x1_0042),
        other => panic!("unexpected {:?}", other),
    }

    // Unknown token.
    match handle_tx_ack(&mut store, 0x9999, TxAckStatus::Success, 3_000) {
        Err(TxAckError::NoCacheItem { token }) => assert_eq!(token, 0x9999),
        other => panic!("unexpected {:?}", other),
    }

    // Expired entries are gone.
    match handle_tx_ack(&mut store, token, TxAckStatus::Success, 3_000 + DOWNLINK_CACHE_TTL_NS) {
        Err(TxAckError::NoCacheItem { .. }) => {}
        other => panic!("unexpected {:?}", other),
    }
}

#[test]
fn tx_ack_success_stops_and_bad_index_is_refused() {
    let mut store = DownlinkCacheStore::new();
    let token = record_downlink(&mut store, frame(5, 3), initial_ack_items(3), 0, 0);
    match handle_tx_ack(&mut store, token, TxAckStatus::Success, 1).unwrap() {
        TxAckAction::Done { downlink_id } => assert_eq!(downlink_id, 5),
        other => panic!("unexpected {:?}", other),
    }
    let t = record_downlink(&mut store, frame(6, 1), Vec::new(), 0, 0);
    match handle_tx_ack(&mut store, t, TxAckStatus::Success, 1) {
        Err(TxAckError::IndexOutOfBounds { index, len }) => assert_eq!((index, len), (0, 0)),
        other => panic!("unexpected {:?}", other),
    }
}

#[test]
fn frames_are_copied() {
    let f = frame(9, 2);
    let c = clone_frame(&f);
    assert_eq!(c.downlink_id, 9);
    assert_eq!(c.items.len(), 2);
    assert_eq!(c.items[1].phy_payload, vec![1, 0xAA]);
    assert_eq!(c.items[1].tx_info.timing, Timing::Delay { seconds: 2 });
    assert_eq!(c.items[0].tx_info.context, vec![1, 2, 3, 4]);
}
