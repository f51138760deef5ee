use hazard_sensor::network::crypto::{channel_hash, compute_mac, mac_then_decrypt};
use hazard_sensor::network::bufs::PayloadBuffer;
use hazard_sensor::network::outbound::{
    build_sensor_data_frame, clock_offset_after, current_timestamp, group_text_frame,
    raw_custom_frame, raw_custom_report_frame, raw_custom_request_frame, report_text,
    request_group_text_frame,
};
use hazard_sensor::network::packet::Packet;
use hazard_sensor::network::types::{
    EncodeError, PayloadType, RouteType, PUBLIC_CHANNEL_KEY, RAW_CUSTOM_REQUEST_TAG,
};

#[test]
fn raw_custom_request_frame_bytes() {
    assert_eq!(raw_custom_request_frame(), vec![0x3D, 0x00, RAW_CUSTOM_REQUEST_TAG]);
}

#[test]
fn raw_custom_frame_limits() {
    assert!(raw_custom_frame(&[0u8; 184]).is_ok());
    assert_eq!(raw_custom_frame(&[0u8; 185]), Err(EncodeError::PayloadTooLong));
}

#[test]
fn sensor_data_frame_is_tag_then_json() {
    let b = build_sensor_data_frame(b"{\"wss\":1}").ok().unwrap();
    assert_eq!(b.as_slice(), b"\xA1{\"wss\":1}");
    assert!(build_sensor_data_frame(&[b'x'; 183]).is_ok());
    assert!(matches!(build_sensor_data_frame(&[b'x'; 184]), Err(EncodeError::PayloadTooLong)));
}

#[test]
fn raw_custom_report_frame_bytes() {
    let f = raw_custom_report_frame(b"{}").unwrap();
    assert_eq!(f, vec![0x3D, 0x00, 0xA1, b'{', b'}']);
}

#[test]
fn group_text_frame_decrypts_to_stamped_text() {
    let f = group_text_frame(0x01020304, b"hi").unwrap();
    let p = Packet::decode(&f).ok().unwrap();
    assert_eq!(p.route_type, RouteType::Flood);
    assert_eq!(p.payload_type, PayloadType::GroupText);
    assert_eq!(p.path.as_slice().len(), 0);
    assert_eq!(p.payload[0], channel_hash(&PUBLIC_CHANNEL_KEY));
    let ct = &p.payload[3..];
    assert_eq!(ct.len(), 16);
    assert_eq!([p.payload[1], p.payload[2]], compute_mac(&PUBLIC_CHANNEL_KEY, ct));
    let mut pt = PayloadBuffer::new();
    mac_then_decrypt(&PUBLIC_CHANNEL_KEY, [p.payload[1], p.payload[2]], ct, &mut pt).unwrap();
    let mut expected = vec![0x04, 0x03, 0x02, 0x01, 0x00, b'h', b'i'];
    expected.resize(16, 0);
    assert_eq!(pt.as_slice(), &expected[..]);
}

#[test]
fn group_text_frame_length_limit() {
    assert!(group_text_frame(0, &[b'a'; 171]).is_ok());
    assert_eq!(group_text_frame(0, &[b'a'; 172]), Err(EncodeError::PayloadTooLong));
}

#[test]
fn request_group_text_frame_carries_data_request() {
    let f = request_group_text_frame();
    let p = Packet::decode(&f).ok().unwrap();
    let ct = &p.payload[3..];
    let mut pt = PayloadBuffer::new();
    mac_then_decrypt(&PUBLIC_CHANNEL_KEY, [p.payload[1], p.payload[2]], ct, &mut pt).unwrap();
    let mut expected = vec![0u8, 0, 0, 0];
    expected.extend_from_slice(b"hazard-sensor: DATA");
    expected.resize(32, 0);
    assert_eq!(pt.as_slice(), &expected[..]);
}

#[test]
fn report_text_prefix_and_capacity() {
    assert_eq!(report_text(b"{}", 160).unwrap(), b"hazard-sensor-0x42: {}".to_vec());
    assert!(report_text(&[b'x'; 76], 96).is_ok());
    assert_eq!(report_text(&[b'x'; 77], 96), Err(EncodeError::PayloadTooLong));
    assert_eq!(report_text(b"", 19), Err(EncodeError::PayloadTooLong));
}

#[test]
fn timestamp_adds_offset() {
    assert_eq!(current_timestamp(100, 1_700_000_000), 1_700_000_100);
    assert_eq!(current_timestamp(5, -10), u32::MAX - 4);
}

#[test]
fn clock_only_moves_forward() {
    assert_eq!(clock_offset_after(1000, 10, 500), Some(990));
    assert_eq!(clock_offset_after(1000, 10, 990), None);
    assert_eq!(clock_offset_after(1000, 10, 2000), None);
    assert_eq!(clock_offset_after(0xFFFF_FFFF, 0, -5), Some(-1));
    assert_eq!(clock_offset_after(0xFFFF_FFFF, 0, -1), None);
}
