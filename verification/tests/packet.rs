use hazard_sensor::network::bufs::PathBuffer;
use hazard_sensor::network::packet::Packet;
use hazard_sensor::network::types::{
    DecodeError, EncodeError, HashSize, PayloadType, RouteType, MAX_PACKET_LEN,
};

#[test]
fn route_type_from_low_bits() {
    assert_eq!(RouteType::from_bits(0b00), Some(RouteType::TransportFlood));
    assert_eq!(RouteType::from_bits(0b01), Some(RouteType::Flood));
    assert_eq!(RouteType::from_bits(0b1111_1110), Some(RouteType::Direct));
    assert_eq!(RouteType::from_bits(0x17), Some(RouteType::TransportDirect));
}

#[test]
fn transport_codes_only_on_transport_routes() {
    assert!(RouteType::TransportFlood.has_transport_codes());
    assert!(RouteType::TransportDirect.has_transport_codes());
    assert!(!RouteType::Flood.has_transport_codes());
    assert!(!RouteType::Direct.has_transport_codes());
}

#[test]
fn payload_type_from_bits_2_to_5() {
    assert_eq!(PayloadType::from_bits(0x05 << 2), Some(PayloadType::GroupText));
    assert_eq!(PayloadType::from_bits((0x04 << 2) | 0b11), Some(PayloadType::Advert));
    assert_eq!(PayloadType::from_bits(0x0F << 2), Some(PayloadType::RawCustom));
    assert_eq!(PayloadType::from_bits(0xC0), Some(PayloadType::Request));
    assert_eq!(PayloadType::from_bits(0x0C << 2), None);
    assert_eq!(PayloadType::from_bits(0x0D << 2), None);
    assert_eq!(PayloadType::from_bits(0x0E << 2), None);
}

#[test]
fn hash_size_from_top_bits() {
    assert_eq!(HashSize::from_bits(0x05), Some(HashSize::One));
    assert_eq!(HashSize::from_bits(0x45), Some(HashSize::Two));
    assert_eq!(HashSize::from_bits(0x80), Some(HashSize::Three));
    assert_eq!(HashSize::from_bits(0xC0), None);
    assert_eq!(HashSize::One.bytes(), 1);
    assert_eq!(HashSize::Two.bytes(), 2);
    assert_eq!(HashSize::Three.bytes(), 3);
}

#[test]
fn originate_checks_payload_length() {
    let long = [0u8; 185];
    assert!(matches!(
        Packet::originate(RouteType::Flood, PayloadType::RawCustom, &long),
        Err(EncodeError::PayloadTooLong)
    ));
    let ok = [7u8; 184];
    let p = Packet::originate(RouteType::Flood, PayloadType::RawCustom, &ok).ok().unwrap();
    assert_eq!(p.payload_version, 0);
    assert_eq!(p.transport_code, None);
    assert_eq!(p.path.as_slice().len(), 0);
    assert_eq!(p.payload, &ok[..]);
}

#[test]
fn encode_flood_group_text() {
    let payload = [1u8, 2, 3];
    let p = Packet::originate(RouteType::Flood, PayloadType::GroupText, &payload).ok().unwrap();
    let mut out = [0xEEu8; MAX_PACKET_LEN];
    let n = p.encode(&mut out).ok().unwrap();
    assert_eq!(n, 5);
    assert_eq!(&out[..5], &[0x15, 0x00, 1, 2, 3]);
    assert!(out[5..].iter().all(|&b| b == 0xEE));
}

#[test]
fn encode_transport_route_with_path() {
    let payload = [0x10u8, 0x20];
    let p = Packet {
        payload_version: 1,
        route_type: RouteType::TransportFlood,
        payload_type: PayloadType::RawCustom,
        transport_code: Some(0x1234),
        path: PathBuffer::from_slice(&[0xAA, 0xBB]).unwrap(),
        payload: &payload,
    };
    let mut out = [0u8; MAX_PACKET_LEN];
    let n = p.encode(&mut out).ok().unwrap();
    assert_eq!(&out[..n], &[0x7C, 0x34, 0x12, 0x00, 0x00, 0x02, 0xAA, 0xBB, 0x10, 0x20]);
}

#[test]
fn encode_missing_transport_code_is_zero() {
    let p = Packet {
        payload_version: 0,
        route_type: RouteType::TransportDirect,
        payload_type: PayloadType::Ack,
        transport_code: None,
        path: PathBuffer::new(),
        payload: &[],
    };
    let mut out = [0u8; MAX_PACKET_LEN];
    let n = p.encode(&mut out).ok().unwrap();
    assert_eq!(&out[..n], &[0x0F, 0, 0, 0, 0, 0]);
}

#[test]
fn encode_rejects_long_path_then_long_payload() {
    let hashes = [1u8; 64];
    let payload = [0u8; 200];
    let p = Packet {
        payload_version: 0,
        route_type: RouteType::Flood,
        payload_type: PayloadType::Path,
        transport_code: None,
        path: PathBuffer::from_slice(&hashes).unwrap(),
        payload: &payload,
    };
    let mut out = [9u8; MAX_PACKET_LEN];
    assert!(matches!(p.encode(&mut out), Err(EncodeError::PathTooLong)));
    assert!(out.iter().all(|&b| b == 9));
    let q = Packet {
        payload_version: 0,
        route_type: RouteType::Flood,
        payload_type: PayloadType::Path,
        transport_code: None,
        path: PathBuffer::from_slice(&hashes[..63]).unwrap(),
        payload: &payload,
    };
    assert!(matches!(q.encode(&mut out), Err(EncodeError::PayloadTooLong)));
}

#[test]
fn encode_largest_packet_fits_frame() {
    let hashes = [3u8; 63];
    let payload = [4u8; 184];
    let p = Packet {
        payload_version: 3,
        route_type: RouteType::TransportDirect,
        payload_type: PayloadType::Trace,
        transport_code: Some(0xFFFF),
        path: PathBuffer::from_slice(&hashes).unwrap(),
        payload: &payload,
    };
    let mut out = [0u8; MAX_PACKET_LEN];
    assert_eq!(p.encode(&mut out).ok().unwrap(), 1 + 4 + 1 + 63 + 184);
}

#[test]
fn decode_two_byte_hashes_keeps_first_byte() {
    let frame = [0x15u8, 0x42, 0xA1, 0xA2, 0xB1, 0xB2, 9, 8];
    let p = Packet::decode(&frame).ok().unwrap();
    assert_eq!(p.payload_version, 0);
    assert_eq!(p.route_type, RouteType::Flood);
    assert_eq!(p.payload_type, PayloadType::GroupText);
    assert_eq!(p.transport_code, None);
    assert_eq!(p.path.as_slice(), &[0xA1, 0xB1]);
    assert_eq!(p.payload, &[9, 8]);
}

#[test]
fn decode_transport_codes_and_version() {
    let frame = [0xC0u8 | (0x02 << 2), 0x34, 0x12, 0x99, 0x99, 0x01, 0x77, 0x55];
    let p = Packet::decode(&frame).ok().unwrap();
    assert_eq!(p.payload_version, 3);
    assert_eq!(p.route_type, RouteType::TransportFlood);
    assert_eq!(p.payload_type, PayloadType::TextMessage);
    assert_eq!(p.transport_code, Some(0x1234));
    assert_eq!(p.path.as_slice(), &[0x77]);
    assert_eq!(p.payload, &[0x55]);
}

#[test]
fn decode_errors() {
    assert!(matches!(Packet::decode(&[]), Err(DecodeError::TooShort)));
    assert!(matches!(Packet::decode(&[0x31, 0x00]), Err(DecodeError::UnknownPayloadType)));
    assert!(matches!(Packet::decode(&[0x14, 1, 2, 3]), Err(DecodeError::TooShort)));
    assert!(matches!(Packet::decode(&[0x15]), Err(DecodeError::TooShort)));
    assert!(matches!(Packet::decode(&[0x15, 0xC0]), Err(DecodeError::ReservedHashSize)));
    assert!(matches!(Packet::decode(&[0x15, 0x03, 1, 2]), Err(DecodeError::TooShort)));
    let mut long = vec![0x15u8, 0x00];
    long.extend_from_slice(&[0u8; 185]);
    assert!(matches!(Packet::decode(&long), Err(DecodeError::PayloadTooLong)));
    long.pop();
    assert!(Packet::decode(&long).is_ok());
}

#[test]
fn decode_of_encode_round_trip() {
    let payload = [5u8, 6, 7, 8];
    let p = Packet {
        payload_version: 2,
        route_type: RouteType::TransportDirect,
        payload_type: PayloadType::Multipart,
        transport_code: Some(0xBEEF),
        path: PathBuffer::from_slice(&[1, 2, 3]).unwrap(),
        payload: &payload,
    };
    let mut out = [0u8; MAX_PACKET_LEN];
    let n = p.encode(&mut out).ok().unwrap();
    let q = Packet::decode(&out[..n]).ok().unwrap();
    assert_eq!(q.payload_version, 2);
    assert_eq!(q.route_type, RouteType::TransportDirect);
    assert_eq!(q.payload_type, PayloadType::Multipart);
    assert_eq!(q.transport_code, Some(0xBEEF));
    assert_eq!(q.path.as_slice(), &[1, 2, 3]);
    assert_eq!(q.payload, &payload[..]);
}

#[test]
fn decoded_payload_borrows_frame_tail() {
    let frame = [0x3Du8, 0x00, 0xA0, 0xA1];
    let p = Packet::decode(&frame).ok().unwrap();
    assert_eq!(p.payload_type, PayloadType::RawCustom);
    assert_eq!(p.payload.as_ptr(), frame[2..].as_ptr());
}

#[test]
fn encode_of_decode_gives_same_frame() {
    let frame = [0x7Cu8, 0x34, 0x12, 0x00, 0x00, 0x02, 0xAA, 0xBB, 0x10, 0x20];
    let p = Packet::decode(&frame).ok().unwrap();
    let mut out = [0u8; MAX_PACKET_LEN];
    let n = p.encode(&mut out).ok().unwrap();
    assert_eq!(&out[..n], &frame[..]);
    let flood = [0x15u8, 0x01, 0x42, 1, 2, 3];
    let q = Packet::decode(&flood).ok().unwrap();
    let m = q.encode(&mut out).ok().unwrap();
    assert_eq!(&out[..m], &flood[..]);
}
