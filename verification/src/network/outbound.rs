//! Building the frames this node transmits, and the clock arithmetic that
//! stamps them.
use vstd::prelude::*;
use crate::network::bufs::{copy_bytes, PayloadBuffer};
use crate::network::crypto::{
    channel_hash, encrypt_then_mac, ecb_encrypt, mac_of, padded_len, sha256_digest, zero_pad,
};
use crate::network::envelope::{envelope_bytes, GroupTextEnvelope};
use crate::network::packet::{encode_result, encoding, Packet, PacketModel};
use crate::network::request::hex_digit;
use crate::network::types::{
    EncodeError, PayloadType, RouteType, MAX_PAYLOAD_LEN, NODE_ID, PUBLIC_CHANNEL_KEY,
    RAW_CUSTOM_REQUEST_TAG, RAW_CUSTOM_RESPONSE_TAG,
};

verus! {

/// The packet this node originates: version 0, flood routed, no transport
/// code, empty path.
pub open spec fn originated(ptype: PayloadType, payload: Seq<u8>) -> PacketModel {
    PacketModel {
        version: 0,
        route: RouteType::Flood,
        ptype,
        transport_code: None,
        path: Seq::empty(),
        payload,
    }
}

/// Encode a packet into a fresh frame.
pub fn frame_of(pkt: &Packet) -> (r: Result<Vec<u8>, EncodeError>)
    ensures
        match (r, encode_result(pkt@)) {
            (Ok(f), Ok(bytes)) => f@ == bytes,
            (Err(e), Err(g)) => e == g,
            _ => false,
        },
{
    let mut buf = [0u8; 255];
    let len = pkt.encode(&mut buf)?;
    let mut frame: Vec<u8> = Vec::new();
    let mut i: usize = 0;
    while i < len
        invariant
            len <= 255,
            buf@.len() == 255,
            i <= len,
            frame@ == buf@.subrange(0, i as int),
        decreases len - i,
    {
        frame.push(buf[i]);
        i = i + 1;
    }
    Ok(frame)
}

/// The flood-routed RawCustom frame carrying `payload`. Fails when the
/// payload exceeds `MAX_PAYLOAD_LEN`.
pub fn raw_custom_frame(payload: &[u8]) -> (r: Result<Vec<u8>, EncodeError>)
    ensures
        payload@.len() <= MAX_PAYLOAD_LEN <==> r is Ok,
        r matches Ok(f) ==> f@ == encoding(originated(PayloadType::RawCustom, payload@)),
        r matches Err(e) ==> e == EncodeError::PayloadTooLong,
{
    let pkt = match Packet::originate(RouteType::Flood, PayloadType::RawCustom, payload) {
        Ok(p) => p,
        Err(e) => return Err(e),
    };
    assert(pkt@ == originated(PayloadType::RawCustom, payload@));
    frame_of(&pkt)
}

/// A bare request for every sensor reading: a RawCustom frame whose payload
/// is the request tag alone.
pub fn raw_custom_request_frame() -> (f: Vec<u8>)
    ensures
        f@ == encoding(originated(PayloadType::RawCustom, seq![RAW_CUSTOM_REQUEST_TAG])),
{
    let payload: [u8; 1] = [RAW_CUSTOM_REQUEST_TAG];
    assert(payload@ =~= seq![RAW_CUSTOM_REQUEST_TAG]);
    match raw_custom_frame(&payload) {
        Ok(f) => f,
        Err(_) => {
            assert(false);
            Vec::new()
        },
    }
}

/// The RawCustom sensor-report payload: the response tag, then the JSON
/// body. Fails when it exceeds a payload.
pub fn build_sensor_data_frame(json: &[u8]) -> (r: Result<PayloadBuffer, EncodeError>)
    ensures
        json@.len() + 1 <= MAX_PAYLOAD_LEN <==> r is Ok,
        r matches Ok(b) ==> b@ == seq![RAW_CUSTOM_RESPONSE_TAG] + json@,
        r matches Err(e) ==> e == EncodeError::PayloadTooLong,
{
    let mut buf = PayloadBuffer::new();
    if buf.push(RAW_CUSTOM_RESPONSE_TAG).is_err() {
        return Err(EncodeError::PayloadTooLong);
    }
    if buf.extend_from_slice(json).is_err() {
        return Err(EncodeError::PayloadTooLong);
    }
    Ok(buf)
}

/// The RawCustom frame that broadcasts a JSON sensor report.
pub fn raw_custom_report_frame(json: &[u8]) -> (r: Result<Vec<u8>, EncodeError>)
    ensures
        json@.len() + 1 <= MAX_PAYLOAD_LEN <==> r is Ok,
        r matches Ok(f) ==> f@ == encoding(
            originated(PayloadType::RawCustom, seq![RAW_CUSTOM_RESPONSE_TAG] + json@),
        ),
        r matches Err(e) ==> e == EncodeError::PayloadTooLong,
{
    let payload = build_sensor_data_frame(json)?;
    raw_custom_frame(payload.as_slice())
}

/// The encrypted group payload of a plaintext on the public channel:
/// channel hash, MAC, AES-128-ECB ciphertext of the zero-padded plaintext.
pub open spec fn public_group_payload(plaintext: Seq<u8>) -> Seq<u8> {
    let key = PUBLIC_CHANNEL_KEY@;
    let ct = ecb_encrypt(key, zero_pad(plaintext));
    envelope_bytes(sha256_digest(key)@[0], mac_of(key, ct), ct)
}

/// The flood-routed group-text frame carrying `plaintext` encrypted on the
/// public channel. Fails when the padded plaintext exceeds a payload.
pub fn public_group_text_frame(plaintext: &[u8]) -> (r: Result<Vec<u8>, EncodeError>)
    ensures
        padded_len(plaintext@.len()) <= MAX_PAYLOAD_LEN <==> r is Ok,
        r matches Ok(f) ==> f@ == encoding(
            originated(PayloadType::GroupText, public_group_payload(plaintext@)),
        ),
        r matches Err(e) ==> e == EncodeError::PayloadTooLong,
{
    let key = PUBLIC_CHANNEL_KEY;
    let mut ciphertext = PayloadBuffer::new();
    let mac = encrypt_then_mac(&key, plaintext, &mut ciphertext)?;
    assert(ciphertext@.len() <= 176) by {
        crate::network::crypto::lemma_ecb_encrypt_len(key@, zero_pad(plaintext@));
    }
    let mut payload = PayloadBuffer::new();
    GroupTextEnvelope::encode(channel_hash(&key), mac, ciphertext.as_slice(), &mut payload)?;
    assert(payload@ == public_group_payload(plaintext@));
    let pkt = match Packet::originate(RouteType::Flood, PayloadType::GroupText, payload.as_slice()) {
        Ok(p) => p,
        Err(e) => return Err(e),
    };
    assert(pkt@ == originated(PayloadType::GroupText, payload@));
    frame_of(&pkt)
}

/// Little-endian bytes of a 32-bit value.
pub open spec fn le_bytes_u32(v: u32) -> Seq<u8> {
    seq![
        (v % 256) as u8,
        ((v / 256) % 256) as u8,
        ((v / 65536) % 256) as u8,
        (v / 16777216) as u8,
    ]
}

/// Append the little-endian bytes of `v`.
fn push_le_u32(buf: &mut PayloadBuffer, v: u32) -> (r: Result<(), ()>)
    ensures
        old(buf)@.len() + 4 <= MAX_PAYLOAD_LEN <==> r is Ok,
        r is Ok ==> final(buf)@ == old(buf)@ + le_bytes_u32(v),
        r is Err ==> final(buf)@ == old(buf)@,
{
    let bytes: [u8; 4] = [
        (v % 256) as u8,
        ((v / 256) % 256) as u8,
        ((v / 65536) % 256) as u8,
        (v / 16777216) as u8,
    ];
    assert(bytes@ =~= le_bytes_u32(v));
    buf.extend_from_slice(&bytes)
}

/// The plaintext of an outgoing group message: timestamp, a zero flags
/// byte, then the text.
pub open spec fn group_message_plaintext(timestamp: u32, text: Seq<u8>) -> Seq<u8> {
    le_bytes_u32(timestamp) + seq![0u8] + text
}

/// The frame that sends `text` to the public channel, stamped with
/// `timestamp`. Fails when the text is too long for one payload.
pub fn group_text_frame(timestamp: u32, text: &[u8]) -> (r: Result<Vec<u8>, EncodeError>)
    ensures
        padded_len(5 + text@.len()) <= MAX_PAYLOAD_LEN <==> r is Ok,
        r matches Ok(f) ==> f@ == encoding(
            originated(
                PayloadType::GroupText,
                public_group_payload(group_message_plaintext(timestamp, text@)),
            ),
        ),
        r matches Err(e) ==> e == EncodeError::PayloadTooLong,
{
    let mut plaintext = PayloadBuffer::new();
    if push_le_u32(&mut plaintext, timestamp).is_err() {
        return Err(EncodeError::PayloadTooLong);
    }
    if plaintext.push(0x00).is_err() {
        return Err(EncodeError::PayloadTooLong);
    }
    if plaintext.extend_from_slice(text).is_err() {
        return Err(EncodeError::PayloadTooLong);
    }
    assert(plaintext@ =~= group_message_plaintext(timestamp, text@));
    public_group_text_frame(plaintext.as_slice())
}

/// ASCII `hazard-sensor: DATA`.
pub open spec fn data_request_text() -> Seq<u8> {
    seq![
        104u8, 97u8, 122u8, 97u8, 114u8, 100u8, 45u8, 115u8, 101u8, 110u8, 115u8, 111u8,
        114u8, 58u8, 32u8, 68u8, 65u8, 84u8, 65u8,
    ]
}

/// A group-text data request on the public channel, used to exercise the
/// channel: timestamp 0 followed by `hazard-sensor: DATA`.
pub fn request_group_text_frame() -> (f: Vec<u8>)
    ensures
        f@ == encoding(
            originated(
                PayloadType::GroupText,
                public_group_payload(le_bytes_u32(0) + data_request_text()),
            ),
        ),
{
    let text: [u8; 19] = [
        104u8, 97u8, 122u8, 97u8, 114u8, 100u8, 45u8, 115u8, 101u8, 110u8, 115u8, 111u8,
        114u8, 58u8, 32u8, 68u8, 65u8, 84u8, 65u8,
    ];
    assert(text@ =~= data_request_text());
    let mut plaintext = PayloadBuffer::new();
    let _ = push_le_u32(&mut plaintext, 0);
    let _ = plaintext.extend_from_slice(&text);
    assert(plaintext@ =~= le_bytes_u32(0) + data_request_text());
    match public_group_text_frame(plaintext.as_slice()) {
        Ok(f) => f,
        Err(_) => {
            assert(false);
            Vec::new()
        },
    }
}

/// ASCII `hazard-sensor-0x42: ` for node 0x42: the prefix of every sensor
/// report this node sends.
pub open spec fn report_prefix() -> Seq<u8> {
    seq![
        104u8, 97u8, 122u8, 97u8, 114u8, 100u8, 45u8, 115u8, 101u8, 110u8, 115u8, 111u8,
        114u8, 45u8, 48u8, 120u8, hex_digit(NODE_ID / 16), hex_digit(NODE_ID % 16), 58u8,
        32u8,
    ]
}

/// The text of a sensor report, `hazard-sensor-0x42: ` followed by the JSON
/// body, when it fits in `capacity` bytes.
pub fn report_text(json: &[u8], capacity: usize) -> (r: Result<Vec<u8>, EncodeError>)
    ensures
        20 + json@.len() <= capacity <==> r is Ok,
        r matches Ok(t) ==> t@ == report_prefix() + json@,
        r matches Err(e) ==> e == EncodeError::PayloadTooLong,
{
    if json.len() > capacity || capacity - json.len() < 20 {
        return Err(EncodeError::PayloadTooLong);
    }
    let hi: u8 = if NODE_ID / 16 < 10 {
        48 + NODE_ID / 16
    } else {
        87 + NODE_ID / 16
    };
    let lo: u8 = if NODE_ID % 16 < 10 {
        48 + NODE_ID % 16
    } else {
        87 + NODE_ID % 16
    };
    let prefix: [u8; 20] = [
        104u8, 97u8, 122u8, 97u8, 114u8, 100u8, 45u8, 115u8, 101u8, 110u8, 115u8, 111u8,
        114u8, 45u8, 48u8, 120u8, hi, lo, 58u8, 32u8,
    ];
    assert(prefix@ =~= report_prefix());
    let mut t = copy_bytes(&prefix);
    let mut i: usize = 0;
    while i < json.len()
        invariant
            i <= json@.len(),
            t@ == report_prefix() + json@.subrange(0, i as int),
        decreases json@.len() - i,
    {
        t.push(json[i]);
        i = i + 1;
    }
    assert(json@.subrange(0, i as int) =~= json@);
    Ok(t)
}

/// Current wall-clock timestamp for outgoing messages: seconds since boot
/// plus the offset learnt from the mesh, as an unsigned value.
pub fn current_timestamp(elapsed_secs: i32, offset: i32) -> (t: u32)
    requires
        i32::MIN <= elapsed_secs + offset <= i32::MAX,
    ensures
        t == (elapsed_secs + offset) as u32,
{
    (elapsed_secs + offset) as u32
}

/// The clock offset after hearing a timestamp from the mesh: the candidate
/// offset `received - elapsed` (the received value read as signed) when it
/// is ahead of the current offset, and none otherwise. The clock only ever
/// moves forward, so a stale or replayed packet cannot rewind it.
pub fn clock_offset_after(received_timestamp: u32, elapsed_secs: i32, current_offset: i32) -> (r:
    Option<i32>)
    requires
        i32::MIN <= (received_timestamp as i32) - elapsed_secs <= i32::MAX,
    ensures
        r == (if (received_timestamp as i32) - elapsed_secs > current_offset {
            Some(((received_timestamp as i32) - elapsed_secs) as i32)
        } else {
            None
        }),
        r matches Some(o) ==> o > current_offset,
{
    let candidate = received_timestamp as i32 - elapsed_secs;
    if candidate > current_offset {
        Some(candidate)
    } else {
        None
    }
}

} // verus!
