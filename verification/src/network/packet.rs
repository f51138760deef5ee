//! MeshCore packets: originating, encoding into a frame, and decoding a
//! received frame.
//!
//! Frame layout: header byte (version in bits 6-7, payload type in bits 2-5,
//! route type in bits 0-1); for transport routes two little-endian 16-bit
//! transport codes (the second reserved); a path-length byte (hop count in
//! bits 0-5, hash size in bits 6-7); the path's node hashes; the payload.
use vstd::prelude::*;
use crate::network::bufs::PathBuffer;
use crate::network::types::{
    DecodeError, EncodeError, HashSize, NodeIdHash, PayloadType, RouteType, MAX_PACKET_LEN,
    MAX_PAYLOAD_LEN,
};

verus! {

/// Abstract content of a packet.
pub ghost struct PacketModel {
    pub version: u8,
    pub route: RouteType,
    pub ptype: PayloadType,
    pub transport_code: Option<u16>,
    pub path: Seq<u8>,
    pub payload: Seq<u8>,
}

/// Little-endian bytes of a 16-bit value.
pub open spec fn le_u16(v: u16) -> Seq<u8> {
    seq![(v % 256) as u8, (v / 256) as u8]
}

/// The header byte: version in bits 6-7, payload type in bits 2-5, route in
/// bits 0-1 (the version keeps its two low bits).
pub open spec fn header_byte(version: u8, ptype: PayloadType, route: RouteType) -> u8 {
    ((version % 4) * 64 + ptype.code() * 4 + route.code()) as u8
}

/// The bytes after the header that a route carries: the transport code
/// (zero when absent) and a reserved zero code, for transport routes only.
pub open spec fn transport_bytes(route: RouteType, code: Option<u16>) -> Seq<u8> {
    if route.spec_has_transport_codes() {
        le_u16(code.unwrap_or(0)) + le_u16(0)
    } else {
        Seq::empty()
    }
}

/// The frame that encodes a packet, for paths of at most 63 hops: the path
/// is written with one-byte node hashes.
pub open spec fn encoding(m: PacketModel) -> Seq<u8> {
    seq![header_byte(m.version, m.ptype, m.route)] + transport_bytes(m.route, m.transport_code)
        + seq![(m.path.len() % 64) as u8] + m.path + m.payload
}

/// What encoding a packet gives: the path is checked before the payload.
pub open spec fn encode_result(m: PacketModel) -> Result<Seq<u8>, EncodeError> {
    if m.path.len() > 63 {
        Err(EncodeError::PathTooLong)
    } else if m.payload.len() > MAX_PAYLOAD_LEN {
        Err(EncodeError::PayloadTooLong)
    } else {
        Ok(encoding(m))
    }
}

/// The node hashes of a path: the first byte of each of `hops` hashes of
/// `size` bytes that start at `start`.
pub open spec fn path_hashes(buf: Seq<u8>, start: int, hops: nat, size: nat) -> Seq<u8> {
    Seq::new(hops, |k: int| buf[start + k * size])
}

/// What decoding a frame gives.
pub open spec fn decode_result(buf: Seq<u8>) -> Result<PacketModel, DecodeError> {
    if buf.len() == 0 {
        Err(DecodeError::TooShort)
    } else {
        let h = buf[0];
        match PayloadType::of_code(((h / 4) % 16) as u8) {
            None => Err(DecodeError::UnknownPayloadType),
            Some(ptype) => {
                let route = RouteType::of_code(h % 4);
                let tc = route.spec_has_transport_codes();
                if tc && buf.len() < 5 {
                    Err(DecodeError::TooShort)
                } else {
                    let start: int = if tc { 5 } else { 1 };
                    let transport_code: Option<u16> = if tc {
                        Some((buf[1] + buf[2] * 256) as u16)
                    } else {
                        None
                    };
                    if buf.len() < start + 1 {
                        Err(DecodeError::TooShort)
                    } else {
                        let plb = buf[start];
                        match HashSize::of_code(plb / 64) {
                            None => Err(DecodeError::ReservedHashSize),
                            Some(hs) => {
                                let hops = (plb % 64) as nat;
                                let path_end = start + 1 + hops * hs.size();
                                if buf.len() < path_end {
                                    Err(DecodeError::TooShort)
                                } else if buf.len() - path_end > MAX_PAYLOAD_LEN {
                                    Err(DecodeError::PayloadTooLong)
                                } else {
                                    Ok(
                                        PacketModel {
                                            version: h / 64,
                                            route,
                                            ptype,
                                            transport_code,
                                            path: path_hashes(buf, start + 1, hops, hs.size()),
                                            payload: buf.subrange(path_end, buf.len() as int),
                                        },
                                    )
                                }
                            },
                        }
                    }
                }
            },
        }
    }
}

/// The packet that a frame encoding `m` decodes to: the version keeps its two
/// low bits, and the transport code is present exactly on transport routes
/// (zero when the packet had none).
pub open spec fn canonical(m: PacketModel) -> PacketModel {
    PacketModel {
        version: m.version % 4,
        transport_code: if m.route.spec_has_transport_codes() {
            Some(m.transport_code.unwrap_or(0))
        } else {
            None
        },
        ..m
    }
}

/// Every payload type is named by its own code.
pub proof fn lemma_payload_type_code(t: PayloadType)
    ensures
        PayloadType::of_code(t.code()) == Some(t),
        t.code() < 16,
{
}

/// Every route type is named by its own code.
pub proof fn lemma_route_type_code(t: RouteType)
    ensures
        RouteType::of_code(t.code()) == t,
        t.code() < 4,
{
}

/// Decoding an encoded packet gives the packet back (in canonical form):
/// for every packet that encodes without error, the receiver sees the
/// route, payload type, path and payload that the sender put in.
pub proof fn packet_round_trip(m: PacketModel)
    requires
        encode_result(m) is Ok,
    ensures
        decode_result(encoding(m)) == Ok::<PacketModel, DecodeError>(canonical(m)),
{
    let buf = encoding(m);
    let h = header_byte(m.version, m.ptype, m.route);
    lemma_payload_type_code(m.ptype);
    lemma_route_type_code(m.route);
    let v4 = m.version % 4;
    let pc = m.ptype.code();
    let rc = m.route.code();
    assert(h == v4 * 64 + pc * 4 + rc);
    assert(h / 64 == v4);
    assert((h / 4) % 16 == pc);
    assert(h % 4 == rc);
    assert(buf[0] == h);
    let tc = m.route.spec_has_transport_codes();
    let start: int = if tc { 5 } else { 1 };
    let tb = transport_bytes(m.route, m.transport_code);
    assert(tb.len() == start - 1);
    let code = m.transport_code.unwrap_or(0);
    if tc {
        assert(buf[1] == (code % 256) as u8);
        assert(buf[2] == (code / 256) as u8);
        assert((buf[1] + buf[2] * 256) as u16 == code);
    }
    let n = m.path.len();
    assert(buf[start] == (n % 64) as u8);
    assert(n % 64 == n);
    assert(HashSize::of_code(buf[start] / 64) == Some(HashSize::One));
    let path_end = start + 1 + n * 1;
    assert(buf.len() == path_end + m.payload.len());
    assert(path_hashes(buf, start + 1, n, 1) =~= m.path);
    assert(buf.subrange(path_end, buf.len() as int) =~= m.payload);
}

/// A decoded packet's payload is the tail of the frame it was decoded from.
pub proof fn decoded_payload_is_tail(buf: Seq<u8>)
    requires
        decode_result(buf) is Ok,
    ensures
        ({
            let m = decode_result(buf)->Ok_0;
            m.payload == buf.subrange(buf.len() - m.payload.len(), buf.len() as int)
        }),
{
}

/// Whether a frame is written the way this library writes frames: one-byte
/// node hashes, and (on transport routes) a zero reserved code.
pub open spec fn plain_frame(buf: Seq<u8>) -> bool {
    let tc = RouteType::of_code(buf[0] % 4).spec_has_transport_codes();
    let start: int = if tc { 5 } else { 1 };
    &&& buf[start] < 64
    &&& tc ==> buf[3] == 0 && buf[4] == 0
}

/// Every payload type code that names a type is that type's code.
pub proof fn lemma_payload_type_of_code(c: u8)
    requires
        PayloadType::of_code(c) is Some,
    ensures
        PayloadType::of_code(c)->Some_0.code() == c,
{
}

/// Re-encoding a decoded frame that uses one-byte hashes and a zero reserved
/// code gives back the very same bytes.
pub proof fn decode_then_encode(buf: Seq<u8>)
    requires
        decode_result(buf) is Ok,
        plain_frame(buf),
    ensures
        encoding(decode_result(buf)->Ok_0) == buf,
{
    let m = decode_result(buf)->Ok_0;
    let h = buf[0];
    lemma_payload_type_of_code(((h / 4) % 16) as u8);
    assert(m.ptype.code() == (h / 4) % 16);
    assert(m.route.code() == h % 4);
    assert(h == ((h / 64) % 4) * 64 + ((h / 4) % 16) * 4 + h % 4) by (bit_vector);
    assert(header_byte(m.version, m.ptype, m.route) == h);
    let tc = m.route.spec_has_transport_codes();
    let start: int = if tc { 5 } else { 1 };
    if tc {
        let code = m.transport_code->Some_0;
        let b1 = buf[1];
        let b2 = buf[2];
        assert(code == b1 + b2 * 256);
        assert(((b1 + b2 * 256) as u16) % 256 == b1 && ((b1 + b2 * 256) as u16) / 256 == b2)
            by (bit_vector);
        assert(transport_bytes(m.route, m.transport_code) =~= buf.subrange(1, 5));
    } else {
        assert(transport_bytes(m.route, m.transport_code) =~= buf.subrange(1, 1));
    }
    let plb = buf[start];
    let hops = (plb % 64) as nat;
    assert(m.path.len() == hops);
    assert((m.path.len() % 64) as u8 == plb);
    let path_end = start + 1 + hops;
    assert(m.path =~= buf.subrange(start + 1, path_end));
    assert(encoding(m) =~= buf);
}

/// MeshCore's header table, read side: bits 2-5 of the header byte name the
/// payload type (0x00 Request, 0x01 Response, 0x02 TextMessage, 0x03 Ack,
/// 0x04 Advert, 0x05 GroupText, 0x06 GroupData, 0x07 AnonRequest, 0x08 Path,
/// 0x09 Trace, 0x0A Multipart, 0x0B Control, 0x0F RawCustom; 0x0C-0x0E name
/// none), bits 0-1 the route (0 TransportFlood, 1 Flood, 2 Direct,
/// 3 TransportDirect) and bits 6-7 the version.
pub proof fn decoded_header_table(buf: Seq<u8>)
    requires
        buf.len() > 0,
    ensures
        ({
            let c = (buf[0] / 4) % 16;
            (12 <= c <= 14) <==> decode_result(buf) == Err::<PacketModel, DecodeError>(
                DecodeError::UnknownPayloadType,
            )
        }),
        decode_result(buf) is Ok ==> ({
            let m = decode_result(buf)->Ok_0;
            let t = m.ptype;
            let c = (buf[0] / 4) % 16;
            &&& m.version == buf[0] / 64
            &&& (c == 0 <==> t == PayloadType::Request)
            &&& (c == 1 <==> t == PayloadType::Response)
            &&& (c == 2 <==> t == PayloadType::TextMessage)
            &&& (c == 3 <==> t == PayloadType::Ack)
            &&& (c == 4 <==> t == PayloadType::Advert)
            &&& (c == 5 <==> t == PayloadType::GroupText)
            &&& (c == 6 <==> t == PayloadType::GroupData)
            &&& (c == 7 <==> t == PayloadType::AnonRequest)
            &&& (c == 8 <==> t == PayloadType::Path)
            &&& (c == 9 <==> t == PayloadType::Trace)
            &&& (c == 10 <==> t == PayloadType::Multipart)
            &&& (c == 11 <==> t == PayloadType::Control)
            &&& (c == 15 <==> t == PayloadType::RawCustom)
            &&& (buf[0] % 4 == 0 <==> m.route == RouteType::TransportFlood)
            &&& (buf[0] % 4 == 1 <==> m.route == RouteType::Flood)
            &&& (buf[0] % 4 == 2 <==> m.route == RouteType::Direct)
            &&& (buf[0] % 4 == 3 <==> m.route == RouteType::TransportDirect)
        }),
{
}

/// MeshCore's header table, write side: the header byte of an encoded
/// packet carries the payload type's code in bits 2-5 and the route's code
/// in bits 0-1, by the same table, and the version's two low bits on top.
pub proof fn encoded_header_table(m: PacketModel)
    ensures
        ({
            let h = encoding(m)[0];
            let c = (h / 4) % 16;
            &&& h / 64 == m.version % 4
            &&& (m.ptype == PayloadType::Request <==> c == 0)
            &&& (m.ptype == PayloadType::Response <==> c == 1)
            &&& (m.ptype == PayloadType::TextMessage <==> c == 2)
            &&& (m.ptype == PayloadType::Ack <==> c == 3)
            &&& (m.ptype == PayloadType::Advert <==> c == 4)
            &&& (m.ptype == PayloadType::GroupText <==> c == 5)
            &&& (m.ptype == PayloadType::GroupData <==> c == 6)
            &&& (m.ptype == PayloadType::AnonRequest <==> c == 7)
            &&& (m.ptype == PayloadType::Path <==> c == 8)
            &&& (m.ptype == PayloadType::Trace <==> c == 9)
            &&& (m.ptype == PayloadType::Multipart <==> c == 10)
            &&& (m.ptype == PayloadType::Control <==> c == 11)
            &&& (m.ptype == PayloadType::RawCustom <==> c == 15)
            &&& (m.route == RouteType::TransportFlood <==> h % 4 == 0)
            &&& (m.route == RouteType::Flood <==> h % 4 == 1)
            &&& (m.route == RouteType::Direct <==> h % 4 == 2)
            &&& (m.route == RouteType::TransportDirect <==> h % 4 == 3)
        }),
{
    let h = header_byte(m.version, m.ptype, m.route);
    lemma_payload_type_code(m.ptype);
    lemma_route_type_code(m.route);
    let v4 = m.version % 4;
    let pc = m.ptype.code();
    let rc = m.route.code();
    assert(h == v4 * 64 + pc * 4 + rc);
    assert(encoding(m)[0] == h);
}

/// A MeshCore packet; its payload borrows from the frame it came from.
pub struct Packet<'a> {
    pub payload_version: u8,
    pub route_type: RouteType,
    pub payload_type: PayloadType,
    pub transport_code: Option<u16>,
    pub path: PathBuffer,
    pub payload: &'a [u8],
}

impl<'a> View for Packet<'a> {
    type V = PacketModel;

    open spec fn view(&self) -> PacketModel {
        PacketModel {
            version: self.payload_version,
            route: self.route_type,
            ptype: self.payload_type,
            transport_code: self.transport_code,
            path: self.path@,
            payload: self.payload@,
        }
    }
}

/// The node hashes of a path, read from a frame.
fn read_path(buf: &[u8], start: usize, hops: usize, size: usize) -> (p: PathBuffer)
    requires
        hops < 64,
        1 <= size <= 3,
        start + hops * size <= buf@.len(),
    ensures
        p@ == path_hashes(buf@, start as int, hops as nat, size as nat),
{
    let mut path = PathBuffer::new();
    let mut k: usize = 0;
    let mut pos: usize = start;
    while k < hops
        invariant
            hops < 64,
            1 <= size <= 3,
            start + hops * size <= buf@.len(),
            k <= hops,
            pos == start + k * size,
            path@.len() == k,
            forall|j: int| 0 <= j < k ==> path@[j] == buf@[start + j * size],
        decreases hops - k,
    {
        assert(pos < buf@.len()) by (nonlinear_arith)
            requires
                pos == start + k * size,
                k < hops,
                start + hops * size <= buf@.len(),
                1 <= size,
        ;
        let _ = path.push(buf[pos]);
        assert((k + 1) * size == k * size + size) by (nonlinear_arith);
        assert(k * size + size <= hops * size) by (nonlinear_arith)
            requires
                k < hops,
                1 <= size,
        ;
        pos = pos + size;
        k = k + 1;
    }
    assert(path@ =~= path_hashes(buf@, start as int, hops as nat, size as nat));
    path
}

impl<'a> Packet<'a> {
    /// A fresh outbound packet as its originator sends it: version 0, no
    /// transport code, empty path. Fails when the payload is too long.
    pub fn originate(route_type: RouteType, payload_type: PayloadType, payload: &'a [u8]) -> (r:
        Result<Self, EncodeError>)
        ensures
            payload@.len() <= MAX_PAYLOAD_LEN <==> r is Ok,
            r matches Err(e) ==> e == EncodeError::PayloadTooLong,
            r matches Ok(p) ==> p@ == (PacketModel {
                version: 0,
                route: route_type,
                ptype: payload_type,
                transport_code: None,
                path: Seq::empty(),
                payload: payload@,
            }),
    {
        if payload.len() > MAX_PAYLOAD_LEN {
            return Err(EncodeError::PayloadTooLong);
        }
        Ok(
            Packet {
                payload_version: 0,
                route_type,
                payload_type,
                transport_code: None,
                path: PathBuffer::new(),
                payload,
            },
        )
    }

    /// Serialise into `out`, returning how many bytes were written; the rest
    /// of `out` is left as it was.
    pub fn encode(&self, out: &mut [u8; 255]) -> (r: Result<usize, EncodeError>)
        ensures
            match (r, encode_result(self@)) {
                (Ok(n), Ok(bytes)) => n == bytes.len() && final(out)@.subrange(0, n as int)
                    == bytes && final(out)@.subrange(n as int, 255) == old(out)@.subrange(
                    n as int,
                    255,
                ),
                (Err(e), Err(f)) => e == f && final(out)@ == old(out)@,
                _ => false,
            },
    {
        let path = self.path.as_slice();
        if path.len() > 63 {
            return Err(EncodeError::PathTooLong);
        }
        if self.payload.len() > MAX_PAYLOAD_LEN {
            return Err(EncodeError::PayloadTooLong);
        }
        let ghost m = self@;
        let ghost orig = out@;
        let v = self.payload_version;
        let pt = self.payload_type.bits();
        let rt = self.route_type.bits();
        let header = ((v & 0b11) << 6) | ((pt & 0x0F) << 2) | (rt & 0b11);
        assert(((v & 3) << 6) | ((pt & 0x0F) << 2) | (rt & 3) == (v % 4) * 64 + pt * 4 + rt)
            by (bit_vector)
            requires
                pt < 16,
                rt < 4,
        ;
        let mut i: usize = 0;
        out[i] = header;
        i = i + 1;
        let ghost mut written: Seq<u8> = seq![header];
        assert(out@.subrange(0, 1) =~= written);
        if self.route_type.has_transport_codes() {
            let code: u16 = match self.transport_code {
                Some(c) => c,
                None => 0,
            };
            out[i] = (code % 256) as u8;
            out[i + 1] = (code / 256) as u8;
            out[i + 2] = 0;
            out[i + 3] = 0;
            i = i + 4;
            proof {
                written = written + le_u16(code) + le_u16(0);
            }
        }
        assert(written =~= seq![header_byte(m.version, m.ptype, m.route)] + transport_bytes(
            m.route,
            m.transport_code,
        ));
        assert(out@.subrange(0, i as int) =~= written);
        assert(out@.subrange(i as int, 255) =~= orig.subrange(i as int, 255));
        let plen = path.len() as u8;
        out[i] = plen & 0b0011_1111;
        assert(plen & 0x3f == plen % 64) by (bit_vector);
        i = i + 1;
        proof {
            written = written.push((m.path.len() % 64) as u8);
        }
        assert(out@.subrange(0, i as int) =~= written);
        assert(out@.subrange(i as int, 255) =~= orig.subrange(i as int, 255));
        let base = i;
        let mut k: usize = 0;
        while k < path.len()
            invariant
                base <= 6,
                i == base + k,
                k <= path@.len() <= 63,
                path@ == m.path,
                written.len() == base,
                out@.subrange(0, base as int) == written,
                out@.subrange(base as int, i as int) == m.path.subrange(0, k as int),
                orig.len() == 255,
                forall|j: int| i <= j < 255 ==> out@[j] == orig[j],
            decreases path@.len() - k,
        {
            let ghost before = out@;
            out[i] = path[k];
            assert(out@.subrange(0, base as int) =~= before.subrange(0, base as int));
            assert(out@.subrange(base as int, i + 1) =~= m.path.subrange(0, k + 1));
            i = i + 1;
            k = k + 1;
        }
        proof {
            assert(out@.subrange(0, i as int) =~= out@.subrange(0, base as int) + out@.subrange(
                base as int,
                i as int,
            ));
            assert(m.path.subrange(0, k as int) =~= m.path);
            written = written + m.path;
        }
        let payload = self.payload;
        let base2 = i;
        let mut k: usize = 0;
        while k < payload.len()
            invariant
                base2 <= 69,
                i == base2 + k,
                k <= payload@.len() <= MAX_PAYLOAD_LEN,
                payload@ == m.payload,
                written.len() == base2,
                out@.subrange(0, base2 as int) == written,
                out@.subrange(base2 as int, i as int) == m.payload.subrange(0, k as int),
                orig.len() == 255,
                forall|j: int| i <= j < 255 ==> out@[j] == orig[j],
            decreases payload@.len() - k,
        {
            let ghost before = out@;
            out[i] = payload[k];
            assert(out@.subrange(0, base2 as int) =~= before.subrange(0, base2 as int));
            assert(out@.subrange(base2 as int, i + 1) =~= m.payload.subrange(0, k + 1));
            i = i + 1;
            k = k + 1;
        }
        proof {
            assert(out@.subrange(0, i as int) =~= out@.subrange(0, base2 as int) + out@.subrange(
                base2 as int,
                i as int,
            ));
            assert(m.payload.subrange(0, k as int) =~= m.payload);
            written = written + m.payload;
            assert(written =~= encoding(m));
            assert(out@.subrange(i as int, 255) =~= orig.subrange(i as int, 255));
        }
        Ok(i)
    }

    /// Parse a received frame. The payload is the tail of `buf`, borrowed,
    /// so decoding copies nothing but the path.
    pub fn decode(buf: &'a [u8]) -> (r: Result<Self, DecodeError>)
        ensures
            match r {
                Ok(p) => decode_result(buf@) == Ok::<PacketModel, DecodeError>(p@),
                Err(e) => decode_result(buf@) == Err::<PacketModel, DecodeError>(e),
            },
    {
        if buf.len() == 0 {
            return Err(DecodeError::TooShort);
        }
        let header = buf[0];
        let payload_version = (header >> 6) & 0b11;
        assert((header >> 6) & 3 == header / 64) by (bit_vector);
        let payload_type = match PayloadType::from_bits(header) {
            Some(t) => t,
            None => return Err(DecodeError::UnknownPayloadType),
        };
        let route_type = match RouteType::from_bits(header) {
            Some(t) => t,
            None => return Err(DecodeError::UnknownRouteType),
        };
        let mut i: usize = 1;
        let mut transport_code: Option<u16> = None;
        if route_type.has_transport_codes() {
            if buf.len() < i + 4 {
                return Err(DecodeError::TooShort);
            }
            transport_code = Some(buf[i] as u16 + (buf[i + 1] as u16) * 256);
            i = i + 4;
        }
        if buf.len() < i + 1 {
            return Err(DecodeError::TooShort);
        }
        let path_len_byte = buf[i];
        i = i + 1;
        let hash_size = match HashSize::from_bits(path_len_byte) {
            Some(h) => h,
            None => return Err(DecodeError::ReservedHashSize),
        };
        let hop_count = (path_len_byte & 0b0011_1111) as usize;
        assert(path_len_byte & 0x3f == path_len_byte % 64) by (bit_vector);
        let size = hash_size.bytes();
        let path_bytes = hop_count * size;
        assert(path_bytes <= 189) by (nonlinear_arith)
            requires
                path_bytes == hop_count * size,
                hop_count < 64,
                size <= 3,
        ;
        if buf.len() < i + path_bytes {
            return Err(DecodeError::TooShort);
        }
        let path = read_path(buf, i, hop_count, size);
        i = i + path_bytes;
        let payload = slice_tail(buf, i);
        if payload.len() > MAX_PAYLOAD_LEN {
            return Err(DecodeError::PayloadTooLong);
        }
        Ok(Packet { payload_version, route_type, payload_type, transport_code, path, payload })
    }
}

/// The tail of a slice from `start`, borrowed.
pub fn slice_tail<'b>(s: &'b [u8], start: usize) -> (t: &'b [u8])
    requires
        start <= s@.len(),
    ensures
        t@ == s@.subrange(start as int, s@.len() as int),
{
    vstd::slice::slice_subrange(s, start, s.len())
}

} // verus!
