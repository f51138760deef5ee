use hazard_sensor::network::request::{contains_subslice, RequestKey};

fn message(text: &[u8]) -> Vec<u8> {
    let mut v = vec![0x10, 0x20, 0x30, 0x40];
    v.extend_from_slice(text);
    v
}

#[test]
fn node_tag_is_hash_and_hex_id() {
    assert_eq!(RequestKey::node_tag(), b"#42".to_vec());
}

#[test]
fn data_request_addressed_to_this_node() {
    assert_eq!(RequestKey::parse(&message(b"DATA #42")), Some(RequestKey::DataAll));
    assert_eq!(RequestKey::parse(&message(b"\0please send DATA to #42\0\0")), Some(RequestKey::DataAll));
}

#[test]
fn request_without_tag_is_ignored() {
    assert_eq!(RequestKey::parse(&message(b"DATA")), None);
    assert_eq!(RequestKey::parse(&message(b"DATA #43")), None);
}

#[test]
fn single_sensor_keywords_take_priority_in_order() {
    assert_eq!(RequestKey::parse(&message(b"#42 WSS")), Some(RequestKey::Wss));
    assert_eq!(RequestKey::parse(&message(b"#42 AQS")), Some(RequestKey::Aqs));
    assert_eq!(RequestKey::parse(&message(b"#42 SMS")), Some(RequestKey::Sms));
    assert_eq!(RequestKey::parse(&message(b"#42 TBS")), Some(RequestKey::Tbs));
    assert_eq!(RequestKey::parse(&message(b"DATA TBS SMS #42")), Some(RequestKey::Sms));
    assert_eq!(RequestKey::parse(&message(b"AQS WSS #42")), Some(RequestKey::Wss));
}

#[test]
fn tag_without_keyword_is_no_request() {
    assert_eq!(RequestKey::parse(&message(b"hello #42")), None);
}

#[test]
fn short_or_invalid_text_is_no_request() {
    assert_eq!(RequestKey::parse(b"#42D"), None);
    assert_eq!(RequestKey::parse(&[1, 2, 3, 4]), None);
    assert_eq!(RequestKey::parse(&message(b"DATA #42 \xff")), None);
}

#[test]
fn substring_search() {
    assert!(contains_subslice(b"abcdef", b"cde"));
    assert!(contains_subslice(b"abc", b""));
    assert!(contains_subslice(b"abc", b"abc"));
    assert!(!contains_subslice(b"abc", b"abcd"));
    assert!(!contains_subslice(b"aab", b"abb"));
}
