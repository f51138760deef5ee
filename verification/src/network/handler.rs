//! Deciding what a received frame asks of this node. The decision is a
//! function of the frame's bytes; performing it (setting the clock, polling
//! sensors, transmitting a reply) is left to the caller.
use vstd::prelude::*;
use vstd::utf8::valid_utf8;
use crate::network::bufs::{copy_bytes, PayloadBuffer};
use crate::network::crypto::{
    channel_hash, ecb_decrypt, ecb_encrypt, lemma_ecb_encrypt_len, mac_of, mac_then_decrypt, padded_len, sha256_digest,
    zero_pad,
};
use crate::network::outbound::{
    group_message_plaintext, le_bytes_u32, originated, public_group_payload, report_prefix,
};
use crate::network::envelope::{envelope_round_trip, le_u32, read_le_u32, Advert, GroupTextEnvelope};
use crate::network::packet::{canonical, decode_result, encoding, packet_round_trip, Packet, PacketModel};
use crate::network::request::{
    contains_bytes, node_tag_bytes, request_in_plaintext, request_in_text, utf8_is_valid, RequestKey,
};
use crate::network::types::{
    DecodeError, PayloadType, RouteType, MAX_PAYLOAD_LEN, PUBLIC_CHANNEL_KEY,
    RAW_CUSTOM_REQUEST_TAG, RAW_CUSTOM_RESPONSE_TAG,
};

verus! {

/// What a received packet asks of this node.
#[derive(Debug, PartialEq, Eq)]
pub enum FrameAction {
    /// A payload type this node does not act on; logged only.
    Ignored(PayloadType),
    /// An advert: bring the clock forward to its timestamp.
    AdvertTimestamp(u32),
    /// An advert payload that did not parse; the clock is left alone.
    AdvertRejected(DecodeError),
    /// A group payload that did not parse.
    GroupTextRejected(DecodeError),
    /// A group message on a channel other than the public one.
    GroupTextOtherChannel(u8),
    /// A public-channel message whose MAC check or decryption failed.
    GroupTextUndecryptable(DecodeError),
    /// A public-channel message: the timestamp at its head (used to bring
    /// the clock forward) and the request it names for this node, if any.
    GroupTextMessage { timestamp: Option<u32>, request: Option<RequestKey> },
    /// A RawCustom request for every sensor reading.
    RawCustomRequest,
    /// A RawCustom sensor report: its JSON body and whether that is UTF-8.
    RawCustomReport { json: Vec<u8>, utf8: bool },
    /// A RawCustom payload with an unknown tag.
    RawCustomUnknownTag(u8),
    /// An empty RawCustom payload.
    RawCustomEmpty,
}

/// Abstract form of a `FrameAction`.
pub ghost enum ActionModel {
    Ignored(PayloadType),
    AdvertTimestamp(u32),
    AdvertRejected(DecodeError),
    GroupTextRejected(DecodeError),
    GroupTextOtherChannel(u8),
    GroupTextUndecryptable(DecodeError),
    GroupTextMessage { timestamp: Option<u32>, request: Option<RequestKey> },
    RawCustomRequest,
    RawCustomReport { json: Seq<u8>, utf8: bool },
    RawCustomUnknownTag(u8),
    RawCustomEmpty,
}

impl View for FrameAction {
    type V = ActionModel;

    open spec fn view(&self) -> ActionModel {
        match self {
            FrameAction::Ignored(t) => ActionModel::Ignored(*t),
            FrameAction::AdvertTimestamp(t) => ActionModel::AdvertTimestamp(*t),
            FrameAction::AdvertRejected(e) => ActionModel::AdvertRejected(*e),
            FrameAction::GroupTextRejected(e) => ActionModel::GroupTextRejected(*e),
            FrameAction::GroupTextOtherChannel(h) => ActionModel::GroupTextOtherChannel(*h),
            FrameAction::GroupTextUndecryptable(e) => ActionModel::GroupTextUndecryptable(*e),
            FrameAction::GroupTextMessage { timestamp, request } => ActionModel::GroupTextMessage {
                timestamp: *timestamp,
                request: *request,
            },
            FrameAction::RawCustomRequest => ActionModel::RawCustomRequest,
            FrameAction::RawCustomReport { json, utf8 } => ActionModel::RawCustomReport {
                json: json@,
                utf8: *utf8,
            },
            FrameAction::RawCustomUnknownTag(t) => ActionModel::RawCustomUnknownTag(*t),
            FrameAction::RawCustomEmpty => ActionModel::RawCustomEmpty,
        }
    }
}

/// What a decrypted public-channel plaintext asks for.
pub open spec fn message_action(plaintext: Seq<u8>) -> ActionModel {
    ActionModel::GroupTextMessage {
        timestamp: if plaintext.len() >= 4 {
            Some(le_u32(plaintext.subrange(0, 4)))
        } else {
            None
        },
        request: request_in_plaintext(plaintext),
    }
}

/// What a group payload asks for: only public-channel messages whose MAC
/// checks out and which decrypt are acted on.
pub open spec fn group_text_action(payload: Seq<u8>) -> ActionModel {
    let key = PUBLIC_CHANNEL_KEY@;
    if payload.len() < 3 {
        ActionModel::GroupTextRejected(DecodeError::TooShort)
    } else if payload[0] != sha256_digest(key)@[0] {
        ActionModel::GroupTextOtherChannel(payload[0])
    } else {
        let ct = payload.subrange(3, payload.len() as int);
        if payload.subrange(1, 3) != mac_of(key, ct) {
            ActionModel::GroupTextUndecryptable(DecodeError::MacMismatch)
        } else if ct.len() == 0 || ct.len() % 16 != 0 {
            ActionModel::GroupTextUndecryptable(DecodeError::TooShort)
        } else {
            message_action(ecb_decrypt(key, ct))
        }
    }
}

/// What a RawCustom payload asks for, by its first byte.
pub open spec fn raw_custom_action(payload: Seq<u8>) -> ActionModel {
    if payload.len() == 0 {
        ActionModel::RawCustomEmpty
    } else if payload[0] == RAW_CUSTOM_REQUEST_TAG {
        ActionModel::RawCustomRequest
    } else if payload[0] == RAW_CUSTOM_RESPONSE_TAG {
        let rest = payload.subrange(1, payload.len() as int);
        ActionModel::RawCustomReport { json: rest, utf8: valid_utf8(rest) }
    } else {
        ActionModel::RawCustomUnknownTag(payload[0])
    }
}

/// What a packet of the given type and payload asks of this node.
pub open spec fn payload_action(ptype: PayloadType, payload: Seq<u8>) -> ActionModel {
    match ptype {
        PayloadType::Advert => if payload.len() < 100 {
            ActionModel::AdvertRejected(DecodeError::TooShort)
        } else {
            ActionModel::AdvertTimestamp(le_u32(payload.subrange(32, 36)))
        },
        PayloadType::GroupText => group_text_action(payload),
        PayloadType::RawCustom => raw_custom_action(payload),
        _ => ActionModel::Ignored(ptype),
    }
}

/// A received packet, summarised for the log, with what it asks for.
pub struct HandledFrame {
    pub route_type: RouteType,
    pub payload_type: PayloadType,
    pub hops: usize,
    pub payload_len: usize,
    pub action: FrameAction,
}

/// The shape of a public-channel group payload: channel hash, MAC of the
/// ciphertext, ciphertext of the zero-padded plaintext.
pub proof fn lemma_public_group_payload(p: Seq<u8>)
    ensures
        ({
            let key = PUBLIC_CHANNEL_KEY@;
            let ct = ecb_encrypt(key, zero_pad(p));
            let b = public_group_payload(p);
            &&& b.len() >= 3
            &&& b[0] == sha256_digest(key)@[0]
            &&& b.subrange(1, 3) == mac_of(key, ct)
            &&& b.subrange(3, b.len() as int) == ct
        }),
{
    let key = PUBLIC_CHANNEL_KEY@;
    let ct = ecb_encrypt(key, zero_pad(p));
    envelope_round_trip(sha256_digest(key)@[0], mac_of(key, ct), ct);
}

/// What a received group payload asks for. A payload built for the public
/// channel from plaintext `p` is understood as the message `p`, zero-padded.
fn group_text_payload_action(payload: &[u8]) -> (a: FrameAction)
    requires
        payload@.len() <= MAX_PAYLOAD_LEN,
    ensures
        a@ == group_text_action(payload@),
        forall|p: Seq<u8>|
            padded_len(p.len()) <= MAX_PAYLOAD_LEN && payload@ == #[trigger] public_group_payload(p)
                ==> a@ == message_action(zero_pad(p)),
{
    let env = match GroupTextEnvelope::decode(payload) {
        Ok(env) => env,
        Err(e) => {
            proof {
                assert forall|p: Seq<u8>|
                    padded_len(p.len()) <= MAX_PAYLOAD_LEN && payload@
                        == #[trigger] public_group_payload(p) implies false by {
                    lemma_public_group_payload(p);
                }
            }
            return FrameAction::GroupTextRejected(e);
        },
    };
    let key = PUBLIC_CHANNEL_KEY;
    if env.channel_hash != channel_hash(&key) {
        proof {
            assert forall|p: Seq<u8>|
                padded_len(p.len()) <= MAX_PAYLOAD_LEN && payload@
                    == #[trigger] public_group_payload(p) implies false by {
                lemma_public_group_payload(p);
            }
        }
        return FrameAction::GroupTextOtherChannel(env.channel_hash);
    }
    let mut plaintext = PayloadBuffer::new();
    let r = mac_then_decrypt(&key, env.mac, env.ciphertext, &mut plaintext);
    match r {
        Ok(()) => {
            let pt = plaintext.as_slice();
            let timestamp = if pt.len() >= 4 {
                Some(read_le_u32(pt, 0))
            } else {
                None
            };
            let a = FrameAction::GroupTextMessage { timestamp, request: RequestKey::parse(pt) };
            proof {
                assert(a@ == message_action(pt@));
                assert forall|p: Seq<u8>|
                    padded_len(p.len()) <= MAX_PAYLOAD_LEN && payload@
                        == #[trigger] public_group_payload(p) implies a@ == message_action(
                    zero_pad(p),
                ) by {
                    lemma_public_group_payload(p);
                }
            }
            a
        },
        Err(e) => {
            proof {
                assert forall|p: Seq<u8>|
                    padded_len(p.len()) <= MAX_PAYLOAD_LEN && payload@
                        == #[trigger] public_group_payload(p) implies false by {
                    lemma_public_group_payload(p);
                }
            }
            FrameAction::GroupTextUndecryptable(e)
        },
    }
}

/// What a received RawCustom payload asks for.
fn raw_custom_payload_action(payload: &[u8]) -> (a: FrameAction)
    ensures
        a@ == raw_custom_action(payload@),
{
    if payload.len() == 0 {
        return FrameAction::RawCustomEmpty;
    }
    let tag = payload[0];
    if tag == RAW_CUSTOM_REQUEST_TAG {
        FrameAction::RawCustomRequest
    } else if tag == RAW_CUSTOM_RESPONSE_TAG {
        let rest = vstd::slice::slice_subrange(payload, 1, payload.len());
        let utf8 = utf8_is_valid(rest);
        FrameAction::RawCustomReport { json: copy_bytes(rest), utf8 }
    } else {
        FrameAction::RawCustomUnknownTag(tag)
    }
}

/// A public-channel group frame originated from plaintext `p` decodes to
/// the packet it encodes.
pub proof fn lemma_public_group_frame(p: Seq<u8>)
    requires
        padded_len(p.len()) <= MAX_PAYLOAD_LEN,
    ensures
        decode_result(encoding(originated(PayloadType::GroupText, public_group_payload(p))))
            == Ok::<PacketModel, DecodeError>(
            originated(PayloadType::GroupText, public_group_payload(p)),
        ),
{
    let key = PUBLIC_CHANNEL_KEY@;
    lemma_ecb_encrypt_len(key, zero_pad(p));
    lemma_public_group_payload(p);
    let m = originated(PayloadType::GroupText, public_group_payload(p));
    assert(padded_len(p.len()) % 16 == 0);
    packet_round_trip(m);
    assert(canonical(m) == m);
}

/// A group message stamped with `timestamp` is heard with that timestamp,
/// and with the request that its text (after the flags byte, padded with
/// zeros) names.
pub proof fn group_message_carries_timestamp(timestamp: u32, text: Seq<u8>)
    ensures
        message_action(zero_pad(group_message_plaintext(timestamp, text)))
            == (ActionModel::GroupTextMessage {
            timestamp: Some(timestamp),
            request: request_in_plaintext(zero_pad(group_message_plaintext(timestamp, text))),
        }),
{
    let pt = zero_pad(group_message_plaintext(timestamp, text));
    assert(pt.subrange(0, 4) =~= le_bytes_u32(timestamp));
    let v = timestamp as int;
    assert((v % 256) + ((v / 256) % 256) * 256 + ((v / 65536) % 256) * 65536 + (v / 16777216)
        * 16777216 == v);
}

/// A RawCustom sensor report sent by one node is heard by another as that
/// report, with its JSON body intact.
pub proof fn raw_custom_report_understood(json: Seq<u8>)
    requires
        json.len() + 1 <= MAX_PAYLOAD_LEN,
    ensures
        ({
            let m = originated(PayloadType::RawCustom, seq![RAW_CUSTOM_RESPONSE_TAG] + json);
            &&& decode_result(encoding(m)) == Ok::<PacketModel, DecodeError>(m)
            &&& payload_action(m.ptype, m.payload) == (ActionModel::RawCustomReport {
                json,
                utf8: valid_utf8(json),
            })
        }),
{
    let m = originated(PayloadType::RawCustom, seq![RAW_CUSTOM_RESPONSE_TAG] + json);
    packet_round_trip(m);
    assert(canonical(m) == m);
    assert(m.payload.subrange(1, m.payload.len() as int) =~= json);
}

/// A RawCustom data request sent by one node is heard by another as a
/// request for every reading.
pub proof fn raw_custom_request_understood()
    ensures
        ({
            let m = originated(PayloadType::RawCustom, seq![RAW_CUSTOM_REQUEST_TAG]);
            &&& decode_result(encoding(m)) == Ok::<PacketModel, DecodeError>(m)
            &&& payload_action(m.ptype, m.payload) == ActionModel::RawCustomRequest
        }),
{
    let m = originated(PayloadType::RawCustom, seq![RAW_CUSTOM_REQUEST_TAG]);
    packet_round_trip(m);
    assert(canonical(m) == m);
}

/// Only adverts, group texts and RawCustom packets are acted on: every other
/// payload type (requests, responses, direct text messages, acks, group
/// data, anonymous requests, paths, traces, multipart and control packets)
/// is logged and ignored, whatever its payload.
pub proof fn other_payload_types_ignored(t: PayloadType, payload: Seq<u8>)
    requires
        t != PayloadType::Advert,
        t != PayloadType::GroupText,
        t != PayloadType::RawCustom,
    ensures
        payload_action(t, payload) == ActionModel::Ignored(t),
{
}

/// Adverts only ever move the clock (or are rejected), and group texts only
/// ever yield group-text outcomes: neither is taken for the other, nor for
/// a RawCustom action.
pub proof fn advert_and_group_text_actions(payload: Seq<u8>)
    ensures
        payload_action(PayloadType::Advert, payload) is AdvertTimestamp || payload_action(
            PayloadType::Advert,
            payload,
        ) is AdvertRejected,
        ({
            let a = payload_action(PayloadType::GroupText, payload);
            a is GroupTextRejected || a is GroupTextOtherChannel || a is GroupTextUndecryptable
                || a is GroupTextMessage
        }),
        payload.len() >= 100 ==> payload_action(PayloadType::Advert, payload)
            == ActionModel::AdvertTimestamp(le_u32(payload.subrange(32, 36))),
{
}

/// A text without the byte `#` names no request: it cannot carry this
/// node's tag.
pub proof fn lemma_untagged_text(text: Seq<u8>)
    requires
        forall|k: int| 0 <= k < text.len() ==> text[k] != 35u8,
    ensures
        request_in_text(text) is None,
{
    if contains_bytes(text, node_tag_bytes()) {
        let i = choose|i: int|
            0 <= i && i + node_tag_bytes().len() <= text.len() && #[trigger] text.subrange(
                i,
                i + node_tag_bytes().len(),
            ) == node_tag_bytes();
        assert(text.subrange(i, i + 3)[0] == text[i]);
        assert(false);
    }
}

/// A sensor report this node sends (timestamp, flags byte,
/// `hazard-sensor-0x42: `, then a JSON body, which holds no `#`), heard
/// again through the mesh, is never taken as a request, so a report cannot
/// set off another report.
pub proof fn own_report_is_not_a_request(timestamp: u32, json: Seq<u8>)
    requires
        forall|k: int| 0 <= k < json.len() ==> json[k] != 35u8,
    ensures
        request_in_plaintext(group_message_plaintext(timestamp, report_prefix() + json)) is None,
        request_in_plaintext(zero_pad(group_message_plaintext(timestamp, report_prefix() + json)))
            is None,
{
    let pt = group_message_plaintext(timestamp, report_prefix() + json);
    let text = pt.subrange(4, pt.len() as int);
    assert(text =~= seq![0u8] + report_prefix() + json);
    assert forall|k: int| 0 <= k < text.len() implies text[k] != 35u8 by {
        if 1 <= k < 21 {
            assert(text[k] == report_prefix()[k - 1]);
        } else if k >= 21 {
            assert(text[k] == json[k - 21]);
        }
    }
    lemma_untagged_text(text);
    let zp = zero_pad(pt);
    let ztext = zp.subrange(4, zp.len() as int);
    assert forall|k: int| 0 <= k < ztext.len() implies ztext[k] != 35u8 by {
        if k < text.len() {
            assert(ztext[k] == text[k]);
        } else {
            assert(ztext[k] == 0u8);
        }
    }
    lemma_untagged_text(ztext);
}

/// Decide what a received frame asks of this node: the packet's summary and
/// the action its payload calls for, or why the frame is not a packet.
pub fn handle_frame(raw_frame_data: &[u8]) -> (r: Result<HandledFrame, DecodeError>)
    ensures
        match (r, decode_result(raw_frame_data@)) {
            (Ok(h), Ok(m)) => h.route_type == m.route && h.payload_type == m.ptype && h.hops
                == m.path.len() && h.payload_len == m.payload.len() && h.action@
                == payload_action(m.ptype, m.payload),
            (Err(e), Err(f)) => e == f,
            _ => false,
        },
        r matches Ok(h) ==> (h.payload_type != PayloadType::Advert && h.payload_type
            != PayloadType::GroupText && h.payload_type != PayloadType::RawCustom
            ==> h.action@ == ActionModel::Ignored(h.payload_type)),
        forall|p: Seq<u8>|
            padded_len(p.len()) <= MAX_PAYLOAD_LEN && raw_frame_data@ == #[trigger] encoding(
                originated(PayloadType::GroupText, public_group_payload(p)),
            ) ==> (r matches Ok(h) && h.payload_type == PayloadType::GroupText && h.action@
                == message_action(zero_pad(p))),
{
    let pkt = match Packet::decode(raw_frame_data) {
        Ok(p) => p,
        Err(e) => {
            proof {
                assert forall|p: Seq<u8>|
                    padded_len(p.len()) <= MAX_PAYLOAD_LEN && raw_frame_data@ == #[trigger] encoding(
                        originated(PayloadType::GroupText, public_group_payload(p)),
                    ) implies false by {
                    lemma_public_group_frame(p);
                }
            }
            return Err(e);
        },
    };
    let action = match pkt.payload_type {
        PayloadType::Advert => match Advert::decode(pkt.payload) {
            Ok(adv) => FrameAction::AdvertTimestamp(adv.timestamp),
            Err(e) => FrameAction::AdvertRejected(e),
        },
        PayloadType::GroupText => {
            let a = group_text_payload_action(pkt.payload);
            proof {
                assert forall|p: Seq<u8>|
                    padded_len(p.len()) <= MAX_PAYLOAD_LEN && raw_frame_data@ == #[trigger] encoding(
                        originated(PayloadType::GroupText, public_group_payload(p)),
                    ) implies a@ == message_action(zero_pad(p)) by {
                    lemma_public_group_frame(p);
                    assert(pkt.payload@ == public_group_payload(p));
                }
            }
            a
        },
        PayloadType::RawCustom => raw_custom_payload_action(pkt.payload),
        other => FrameAction::Ignored(other),
    };
    proof {
        assert forall|p: Seq<u8>|
            padded_len(p.len()) <= MAX_PAYLOAD_LEN && raw_frame_data@ == #[trigger] encoding(
                originated(PayloadType::GroupText, public_group_payload(p)),
            ) implies pkt.payload_type == PayloadType::GroupText by {
            lemma_public_group_frame(p);
        }
    }
    Ok(
        HandledFrame {
            route_type: pkt.route_type,
            payload_type: pkt.payload_type,
            hops: pkt.path.as_slice().len(),
            payload_len: pkt.payload.len(),
            action,
        },
    )
}

} // verus!
