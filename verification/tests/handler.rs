use hazard_sensor::network::handler::{handle_frame, FrameAction};
use hazard_sensor::network::outbound::{
    group_text_frame, raw_custom_frame, raw_custom_report_frame, raw_custom_request_frame,
    report_text, request_group_text_frame,
};
use hazard_sensor::network::request::RequestKey;
use hazard_sensor::network::types::{DecodeError, PayloadType, RouteType};

#[test]
fn data_request_on_public_channel() {
    let f = group_text_frame(1_700_000_000, b"DATA #42").unwrap();
    let h = handle_frame(&f).ok().unwrap();
    assert_eq!(h.route_type, RouteType::Flood);
    assert_eq!(h.payload_type, PayloadType::GroupText);
    assert_eq!(h.hops, 0);
    assert_eq!(h.payload_len, 3 + 16);
    assert_eq!(
        h.action,
        FrameAction::GroupTextMessage {
            timestamp: Some(1_700_000_000),
            request: Some(RequestKey::DataAll)
        }
    );
}

#[test]
fn single_sensor_request_on_public_channel() {
    let f = group_text_frame(7, b"#42 TBS").unwrap();
    let h = handle_frame(&f).ok().unwrap();
    assert_eq!(
        h.action,
        FrameAction::GroupTextMessage { timestamp: Some(7), request: Some(RequestKey::Tbs) }
    );
}

#[test]
fn untagged_message_only_sets_clock() {
    let f = request_group_text_frame();
    let h = handle_frame(&f).ok().unwrap();
    assert_eq!(h.action, FrameAction::GroupTextMessage { timestamp: Some(0), request: None });
}

#[test]
fn tampered_group_message_is_undecryptable() {
    let mut f = group_text_frame(1, b"DATA #42").unwrap();
    let last = f.len() - 1;
    f[last] ^= 0x80;
    let h = handle_frame(&f).ok().unwrap();
    assert_eq!(h.action, FrameAction::GroupTextUndecryptable(DecodeError::MacMismatch));
}

#[test]
fn group_message_on_other_channel() {
    let mut f = group_text_frame(1, b"DATA #42").unwrap();
    f[2] = f[2].wrapping_add(1);
    let h = handle_frame(&f).ok().unwrap();
    assert_eq!(h.action, FrameAction::GroupTextOtherChannel(f[2]));
}

#[test]
fn short_group_payload_is_rejected() {
    let frame = [0x15u8, 0x00, 0x11, 0x22];
    let h = handle_frame(&frame).ok().unwrap();
    assert_eq!(h.action, FrameAction::GroupTextRejected(DecodeError::TooShort));
}

#[test]
fn advert_timestamp() {
    let mut frame = vec![0x11u8, 0x00];
    let mut payload = vec![0u8; 100];
    payload[32..36].copy_from_slice(&0x6543_2100u32.to_le_bytes());
    payload.extend_from_slice(b"app");
    frame.extend_from_slice(&payload);
    let h = handle_frame(&frame).ok().unwrap();
    assert_eq!(h.payload_type, PayloadType::Advert);
    assert_eq!(h.action, FrameAction::AdvertTimestamp(0x6543_2100));
    let short = [0x11u8, 0x00, 1, 2, 3];
    let h = handle_frame(&short).ok().unwrap();
    assert_eq!(h.action, FrameAction::AdvertRejected(DecodeError::TooShort));
}

#[test]
fn raw_custom_actions() {
    let h = handle_frame(&raw_custom_request_frame()).ok().unwrap();
    assert_eq!(h.action, FrameAction::RawCustomRequest);
    let h = handle_frame(&raw_custom_report_frame(b"{\"tbs\":0}").unwrap()).ok().unwrap();
    assert_eq!(
        h.action,
        FrameAction::RawCustomReport { json: b"{\"tbs\":0}".to_vec(), utf8: true }
    );
    let h = handle_frame(&raw_custom_frame(&[0xA1, 0xFF]).unwrap()).ok().unwrap();
    assert_eq!(h.action, FrameAction::RawCustomReport { json: vec![0xFF], utf8: false });
    let h = handle_frame(&raw_custom_frame(&[0x01]).unwrap()).ok().unwrap();
    assert_eq!(h.action, FrameAction::RawCustomUnknownTag(0x01));
    let h = handle_frame(&raw_custom_frame(&[]).unwrap()).ok().unwrap();
    assert_eq!(h.action, FrameAction::RawCustomEmpty);
}

#[test]
fn other_payload_types_are_ignored() {
    let frame = [0x0Du8, 0x01, 0x42, 0xAB];
    let h = handle_frame(&frame).ok().unwrap();
    assert_eq!(h.payload_type, PayloadType::Ack);
    assert_eq!(h.hops, 1);
    assert_eq!(h.action, FrameAction::Ignored(PayloadType::Ack));
}

#[test]
fn malformed_frame_is_reported() {
    assert!(matches!(handle_frame(&[0x31, 0x00]), Err(DecodeError::UnknownPayloadType)));
}

#[test]
fn own_report_is_not_taken_as_a_request() {
    let text = report_text(b"{\"wss\":12.5,\"aqs_tmp\":21.3,\"tbs\":0}", 96).unwrap();
    assert!(text.starts_with(b"hazard-sensor-0x42: "));
    let f = group_text_frame(123, &text).unwrap();
    let h = handle_frame(&f).ok().unwrap();
    assert_eq!(h.action, FrameAction::GroupTextMessage { timestamp: Some(123), request: None });
}
