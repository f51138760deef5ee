use hazard_sensor::network::bufs::PayloadBuffer;
use hazard_sensor::network::crypto::{
    aes128_ecb_decrypt, aes128_ecb_encrypt_zero_padded, channel_hash, compute_mac,
    encrypt_then_mac, mac_then_decrypt,
};
use hazard_sensor::network::types::{DecodeError, EncodeError, PUBLIC_CHANNEL_KEY};
use sha2::Digest;

const FIPS_KEY: [u8; 16] = [
    0x00, 0x01, 0x02, 0x03, 0x04, 0x05, 0x06, 0x07, 0x08, 0x09, 0x0a, 0x0b, 0x0c, 0x0d, 0x0e, 0x0f,
];
const FIPS_PLAIN: [u8; 16] = [
    0x00, 0x11, 0x22, 0x33, 0x44, 0x55, 0x66, 0x77, 0x88, 0x99, 0xaa, 0xbb, 0xcc, 0xdd, 0xee, 0xff,
];
const FIPS_CIPHER: [u8; 16] = [
    0x69, 0xc4, 0xe0, 0xd8, 0x6a, 0x7b, 0x04, 0x30, 0xd8, 0xcd, 0xb7, 0x80, 0x70, 0xb4, 0xc5, 0x5a,
];

#[test]
fn channel_hash_is_first_byte_of_sha256() {
    assert_eq!(channel_hash(b"abc"), 0xba);
    let expected = sha2::Sha256::digest(PUBLIC_CHANNEL_KEY)[0];
    assert_eq!(channel_hash(&PUBLIC_CHANNEL_KEY), expected);
}

#[test]
fn aes_known_answer() {
    let mut out = PayloadBuffer::new();
    aes128_ecb_encrypt_zero_padded(&FIPS_KEY, &FIPS_PLAIN, &mut out).unwrap();
    assert_eq!(out.as_slice(), &FIPS_CIPHER);
    let mut back = PayloadBuffer::new();
    aes128_ecb_decrypt(&FIPS_KEY, &FIPS_CIPHER, &mut back).unwrap();
    assert_eq!(back.as_slice(), &FIPS_PLAIN);
}

#[test]
fn encryption_zero_pads_to_whole_blocks() {
    let mut out = PayloadBuffer::new();
    aes128_ecb_encrypt_zero_padded(&FIPS_KEY, &[], &mut out).unwrap();
    assert_eq!(out.as_slice().len(), 16);
    let mut back = PayloadBuffer::new();
    aes128_ecb_decrypt(&FIPS_KEY, out.as_slice(), &mut back).unwrap();
    assert_eq!(back.as_slice(), &[0u8; 16]);

    aes128_ecb_encrypt_zero_padded(&FIPS_KEY, &[1u8; 17], &mut out).unwrap();
    assert_eq!(out.as_slice().len(), 32);
    aes128_ecb_decrypt(&FIPS_KEY, out.as_slice(), &mut back).unwrap();
    let mut expected = vec![1u8; 17];
    expected.extend_from_slice(&[0u8; 15]);
    assert_eq!(back.as_slice(), &expected[..]);
}

#[test]
fn encryption_limit_is_eleven_blocks() {
    let mut out = PayloadBuffer::new();
    assert!(aes128_ecb_encrypt_zero_padded(&FIPS_KEY, &[2u8; 176], &mut out).is_ok());
    assert_eq!(out.as_slice().len(), 176);
    assert_eq!(
        aes128_ecb_encrypt_zero_padded(&FIPS_KEY, &[2u8; 177], &mut out),
        Err(EncodeError::PayloadTooLong)
    );
    assert_eq!(out.as_slice().len(), 176);
}

#[test]
fn decryption_rejects_partial_blocks() {
    let mut out = PayloadBuffer::new();
    out.push(42).unwrap();
    assert_eq!(aes128_ecb_decrypt(&FIPS_KEY, &[], &mut out), Err(DecodeError::TooShort));
    assert_eq!(aes128_ecb_decrypt(&FIPS_KEY, &[0u8; 15], &mut out), Err(DecodeError::TooShort));
    assert_eq!(out.as_slice(), &[42]);
    assert_eq!(
        aes128_ecb_decrypt(&FIPS_KEY, &[0u8; 192], &mut out),
        Err(DecodeError::PayloadTooLong)
    );
}

#[test]
fn hmac_known_answer_truncated() {
    assert_eq!(compute_mac(b"Jefe", b"what do ya want for nothing?"), [0x5b, 0xdc]);
}

#[test]
fn encrypt_then_mac_then_decrypt_round_trip() {
    let plaintext = b"\x01\x02\x03\x04\x00hazard-sensor-0x42: {\"wss\":1}";
    let mut ct = PayloadBuffer::new();
    let mac = encrypt_then_mac(&PUBLIC_CHANNEL_KEY, plaintext, &mut ct).unwrap();
    assert_eq!(mac, compute_mac(&PUBLIC_CHANNEL_KEY, ct.as_slice()));
    let mut pt = PayloadBuffer::new();
    mac_then_decrypt(&PUBLIC_CHANNEL_KEY, mac, ct.as_slice(), &mut pt).unwrap();
    let got = pt.as_slice();
    assert_eq!(got.len(), 48);
    assert_eq!(&got[..plaintext.len()], &plaintext[..]);
    assert!(got[plaintext.len()..].iter().all(|&b| b == 0));
}

#[test]
fn wrong_mac_is_rejected_before_decrypting() {
    let mut ct = PayloadBuffer::new();
    let mac = encrypt_then_mac(&PUBLIC_CHANNEL_KEY, b"hello", &mut ct).unwrap();
    let bad = [mac[0] ^ 1, mac[1]];
    let mut pt = PayloadBuffer::new();
    pt.push(7).unwrap();
    assert_eq!(
        mac_then_decrypt(&PUBLIC_CHANNEL_KEY, bad, ct.as_slice(), &mut pt),
        Err(DecodeError::MacMismatch)
    );
    assert_eq!(pt.as_slice(), &[7]);
}

#[test]
fn encrypt_then_mac_rejects_oversized_plaintext() {
    let mut ct = PayloadBuffer::new();
    assert_eq!(
        encrypt_then_mac(&PUBLIC_CHANNEL_KEY, &[0u8; 180], &mut ct),
        Err(EncodeError::PayloadTooLong)
    );
}

#[test]
fn authenticated_oversized_ciphertext_is_payload_too_long() {
    let ct = [0x5Au8; 192];
    let mac = compute_mac(&PUBLIC_CHANNEL_KEY, &ct);
    let mut pt = PayloadBuffer::new();
    assert_eq!(
        mac_then_decrypt(&PUBLIC_CHANNEL_KEY, mac, &ct, &mut pt),
        Err(DecodeError::PayloadTooLong)
    );
    assert_eq!(pt.as_slice().len(), 176);
}
