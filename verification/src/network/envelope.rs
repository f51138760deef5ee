//! Payload layouts carried inside packets: the group-text envelope
//! (channel hash, truncated MAC, ciphertext) and the node advert.
use vstd::prelude::*;
use crate::network::bufs::PayloadBuffer;
use crate::network::types::{DecodeError, EncodeError, MAC_LEN, MAX_PAYLOAD_LEN};

verus! {

/// The value of four little-endian bytes.
pub open spec fn le_u32(s: Seq<u8>) -> u32 {
    (s[0] + s[1] * 256 + s[2] * 65536 + s[3] * 16777216) as u32
}

/// Read a little-endian 32-bit value starting at `start`.
pub fn read_le_u32(buf: &[u8], start: usize) -> (v: u32)
    requires
        start + 4 <= buf@.len(),
    ensures
        v == le_u32(buf@.subrange(start as int, start + 4)),
{
    let b0 = buf[start] as u32;
    let b1 = buf[start + 1] as u32;
    let b2 = buf[start + 2] as u32;
    let b3 = buf[start + 3] as u32;
    b0 + b1 * 256 + b2 * 65536 + b3 * 16777216
}

/// The bytes of a group-text payload: channel hash, MAC, ciphertext.
pub open spec fn envelope_bytes(channel_hash: u8, mac: Seq<u8>, ciphertext: Seq<u8>) -> Seq<u8> {
    seq![channel_hash] + mac + ciphertext
}

/// Group text / group data payload: `channel_hash(1) || MAC(2) || ciphertext`.
pub struct GroupTextEnvelope<'a> {
    pub channel_hash: u8,
    pub mac: [u8; 2],
    pub ciphertext: &'a [u8],
}

impl<'a> GroupTextEnvelope<'a> {
    /// Split a group payload into its fields; the ciphertext is borrowed.
    /// Fails when the payload is shorter than three bytes.
    pub fn decode(buf: &'a [u8]) -> (r: Result<Self, DecodeError>)
        ensures
            buf@.len() < 3 <==> r is Err,
            r matches Err(e) ==> e == DecodeError::TooShort,
            r matches Ok(env) ==> env.channel_hash == buf@[0] && env.mac@ == buf@.subrange(1, 3)
                && env.ciphertext@ == buf@.subrange(3, buf@.len() as int),
    {
        if buf.len() < 3 {
            return Err(DecodeError::TooShort);
        }
        let mac: [u8; 2] = [buf[1], buf[2]];
        assert(mac@ =~= buf@.subrange(1, 3));
        Ok(
            GroupTextEnvelope {
                channel_hash: buf[0],
                mac,
                ciphertext: vstd::slice::slice_subrange(buf, 3, buf.len()),
            },
        )
    }

    /// Write `channel_hash || mac || ciphertext` into `out`, replacing what it
    /// held. Fails when the whole does not fit in a payload; `out` then holds
    /// the hash and MAC only.
    pub fn encode(channel_hash: u8, mac: [u8; 2], ciphertext: &[u8], out: &mut PayloadBuffer) -> (r:
        Result<(), EncodeError>)
        ensures
            ciphertext@.len() + 3 <= MAX_PAYLOAD_LEN <==> r is Ok,
            r is Ok ==> final(out)@ == envelope_bytes(channel_hash, mac@, ciphertext@),
            r matches Err(e) ==> e == EncodeError::PayloadTooLong && final(out)@ == seq![
                channel_hash,
            ] + mac@,
    {
        out.clear();
        if out.push(channel_hash).is_err() {
            return Err(EncodeError::PayloadTooLong);
        }
        if out.extend_from_slice(&mac).is_err() {
            return Err(EncodeError::PayloadTooLong);
        }
        assert(mac@.len() == 2);
        if out.extend_from_slice(ciphertext).is_err() {
            return Err(EncodeError::PayloadTooLong);
        }
        Ok(())
    }
}

/// Splitting an encoded group payload gives back the channel hash, MAC and
/// ciphertext that were encoded.
pub proof fn envelope_round_trip(channel_hash: u8, mac: Seq<u8>, ciphertext: Seq<u8>)
    requires
        mac.len() == MAC_LEN,
    ensures
        ({
            let b = envelope_bytes(channel_hash, mac, ciphertext);
            &&& b.len() >= 3
            &&& b[0] == channel_hash
            &&& b.subrange(1, 3) == mac
            &&& b.subrange(3, b.len() as int) == ciphertext
        }),
{
    let b = envelope_bytes(channel_hash, mac, ciphertext);
    assert(b.subrange(1, 3) =~= mac);
    assert(b.subrange(3, b.len() as int) =~= ciphertext);
}

/// Advert payload: public key, timestamp, signature and application data.
/// Its timestamp keeps this node's clock in step with the mesh.
pub struct Advert<'a> {
    pub public_key: [u8; 32],
    pub timestamp: u32,
    pub signature: [u8; 64],
    pub app_data: &'a [u8],
}

/// Copy 32 bytes starting at `start` into a fresh array.
fn copy_array_32(buf: &[u8], start: usize) -> (a: [u8; 32])
    requires
        start + 32 <= buf@.len(),
    ensures
        a@ == buf@.subrange(start as int, start + 32),
{
    let mut a = [0u8; 32];
    let n = buf.len();
    let mut i: usize = 0;
    while i < 32
        invariant
            n == buf@.len(),
            start + 32 <= buf@.len(),
            i <= 32,
            forall|j: int| 0 <= j < i ==> a@[j] == buf@[start + j],
        decreases 32 - i,
    {
        a[i] = buf[start + i];
        i = i + 1;
    }
    assert(a@ =~= buf@.subrange(start as int, start + 32));
    a
}

/// Copy 64 bytes starting at `start` into a fresh array.
fn copy_array_64(buf: &[u8], start: usize) -> (a: [u8; 64])
    requires
        start + 64 <= buf@.len(),
    ensures
        a@ == buf@.subrange(start as int, start + 64),
{
    let mut a = [0u8; 64];
    let n = buf.len();
    let mut i: usize = 0;
    while i < 64
        invariant
            n == buf@.len(),
            start + 64 <= buf@.len(),
            i <= 64,
            forall|j: int| 0 <= j < i ==> a@[j] == buf@[start + j],
        decreases 64 - i,
    {
        a[i] = buf[start + i];
        i = i + 1;
    }
    assert(a@ =~= buf@.subrange(start as int, start + 64));
    a
}

impl<'a> Advert<'a> {
    /// Split an advert payload: key (32 bytes), little-endian timestamp (4),
    /// signature (64), then application data, borrowed. Fails when shorter
    /// than 100 bytes.
    pub fn decode(buf: &'a [u8]) -> (r: Result<Self, DecodeError>)
        ensures
            buf@.len() < 100 <==> r is Err,
            r matches Err(e) ==> e == DecodeError::TooShort,
            r matches Ok(a) ==> a.public_key@ == buf@.subrange(0, 32) && a.timestamp == le_u32(
                buf@.subrange(32, 36),
            ) && a.signature@ == buf@.subrange(36, 100) && a.app_data@ == buf@.subrange(
                100,
                buf@.len() as int,
            ),
    {
        if buf.len() < 32 + 4 + 64 {
            return Err(DecodeError::TooShort);
        }
        let public_key = copy_array_32(buf, 0);
        let timestamp = read_le_u32(buf, 32);
        let signature = copy_array_64(buf, 36);
        Ok(
            Advert {
                public_key,
                timestamp,
                signature,
                app_data: vstd::slice::slice_subrange(buf, 100, buf.len()),
            },
        )
    }
}

} // verus!
