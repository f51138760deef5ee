//! Protocol constants, error kinds and the small enumerations packed into a
//! MeshCore packet header.
use vstd::prelude::*;

verus! {

/// Largest over-the-air frame, in bytes.
pub const MAX_PACKET_LEN: usize = 255;

/// Capacity of a forwarding path, in node hashes.
pub const MAX_PATH_LEN: usize = 64;

/// Largest payload carried by one packet, in bytes.
pub const MAX_PAYLOAD_LEN: usize = 184;

/// Largest JSON body of a full sensor report, in bytes.
pub const MAX_JSON_LEN: usize = 128;

/// Symmetric key of the MeshCore public channel.
pub const PUBLIC_CHANNEL_KEY: [u8; 16] = [
    0x8b, 0x33, 0x87, 0xe9, 0xc5, 0xcd, 0xea, 0x6a,
    0xc9, 0xe5, 0xed, 0xba, 0xa1, 0x15, 0xcd, 0x72,
];

/// Hash of a node identity: the first byte of its public key.
pub type NodeIdHash = u8;

/// This node's identity hash.
pub const NODE_ID: NodeIdHash = 0x42;

/// AES block size, in bytes.
pub const BLOCK_SIZE: usize = 16;

/// Length of the truncated HMAC carried by group messages, in bytes.
pub const MAC_LEN: usize = 2;

/// Transmit power, in dBm.
pub const TX_POWER_DBM: i32 = 22;

/// Carrier frequency, in Hz.
pub const FREQ_HZ: u32 = 915_800_000;

/// First byte of a RawCustom payload that asks for every sensor reading.
pub const RAW_CUSTOM_REQUEST_TAG: u8 = 0xA0;

/// First byte of a RawCustom payload that carries a JSON sensor report.
pub const RAW_CUSTOM_RESPONSE_TAG: u8 = 0xA1;

/// Errors when encoding packets and payloads.
#[derive(Debug, Clone, Copy, PartialEq, Eq, Structural)]
pub enum EncodeError {
    PathTooLong,
    PayloadTooLong,
}

/// Errors when parsing a received frame or payload.
#[derive(Debug, Clone, Copy, PartialEq, Eq, Structural)]
pub enum DecodeError {
    TooShort,
    UnknownRouteType,
    UnknownPayloadType,
    ReservedHashSize,
    PathTooLong,
    PayloadTooLong,
    MacMismatch,
}

/// Route type, held in bits 0-1 of the header.
#[derive(Debug, Clone, Copy, PartialEq, Eq, Structural)]
pub enum RouteType {
    /// Flood routing with transport codes.
    TransportFlood,
    /// Flood routing.
    Flood,
    /// Direct routing.
    Direct,
    /// Direct routing with transport codes.
    TransportDirect,
}

impl RouteType {
    /// The two-bit code of a route type.
    pub open spec fn code(self) -> u8 {
        match self {
            RouteType::TransportFlood => 0,
            RouteType::Flood => 1,
            RouteType::Direct => 2,
            RouteType::TransportDirect => 3,
        }
    }

    /// The route type whose code is `c`, for `c < 4`.
    pub open spec fn of_code(c: u8) -> RouteType {
        if c == 0 {
            RouteType::TransportFlood
        } else if c == 1 {
            RouteType::Flood
        } else if c == 2 {
            RouteType::Direct
        } else {
            RouteType::TransportDirect
        }
    }

    /// Whether the route carries two transport codes after the header.
    pub open spec fn spec_has_transport_codes(self) -> bool {
        self == RouteType::TransportFlood || self == RouteType::TransportDirect
    }

    /// The two-bit code of this route type.
    pub fn bits(self) -> (r: u8)
        ensures
            r == self.code(),
            r < 4,
    {
        match self {
            RouteType::TransportFlood => 0,
            RouteType::Flood => 1,
            RouteType::Direct => 2,
            RouteType::TransportDirect => 3,
        }
    }

    /// The route type held in bits 0-1 of a header byte; every value names one.
    pub fn from_bits(b: u8) -> (r: Option<Self>)
        ensures
            r == Some(RouteType::of_code(b % 4)),
    {
        let c = b & 0b11;
        assert(b & 3 == b % 4) by (bit_vector);
        match c {
            0b00 => Some(RouteType::TransportFlood),
            0b01 => Some(RouteType::Flood),
            0b10 => Some(RouteType::Direct),
            _ => Some(RouteType::TransportDirect),
        }
    }

    /// Whether the route carries transport codes.
    pub fn has_transport_codes(self) -> (r: bool)
        ensures
            r == self.spec_has_transport_codes(),
    {
        match self {
            RouteType::TransportFlood | RouteType::TransportDirect => true,
            _ => false,
        }
    }
}

/// Payload type, held in bits 2-5 of the header.
#[derive(Debug, Clone, Copy, PartialEq, Eq, Structural)]
pub enum PayloadType {
    Request,
    Response,
    TextMessage,
    Ack,
    Advert,
    GroupText,
    GroupData,
    AnonRequest,
    Path,
    Trace,
    Multipart,
    Control,
    RawCustom,
}

impl PayloadType {
    /// The four-bit code of a payload type.
    pub open spec fn code(self) -> u8 {
        match self {
            PayloadType::Request => 0x00,
            PayloadType::Response => 0x01,
            PayloadType::TextMessage => 0x02,
            PayloadType::Ack => 0x03,
            PayloadType::Advert => 0x04,
            PayloadType::GroupText => 0x05,
            PayloadType::GroupData => 0x06,
            PayloadType::AnonRequest => 0x07,
            PayloadType::Path => 0x08,
            PayloadType::Trace => 0x09,
            PayloadType::Multipart => 0x0A,
            PayloadType::Control => 0x0B,
            PayloadType::RawCustom => 0x0F,
        }
    }

    /// The payload type whose code is `c`, if any (codes 0x0C-0x0E and
    /// anything above 0x0F name none).
    pub open spec fn of_code(c: u8) -> Option<PayloadType> {
        if c == 0x00 {
            Some(PayloadType::Request)
        } else if c == 0x01 {
            Some(PayloadType::Response)
        } else if c == 0x02 {
            Some(PayloadType::TextMessage)
        } else if c == 0x03 {
            Some(PayloadType::Ack)
        } else if c == 0x04 {
            Some(PayloadType::Advert)
        } else if c == 0x05 {
            Some(PayloadType::GroupText)
        } else if c == 0x06 {
            Some(PayloadType::GroupData)
        } else if c == 0x07 {
            Some(PayloadType::AnonRequest)
        } else if c == 0x08 {
            Some(PayloadType::Path)
        } else if c == 0x09 {
            Some(PayloadType::Trace)
        } else if c == 0x0A {
            Some(PayloadType::Multipart)
        } else if c == 0x0B {
            Some(PayloadType::Control)
        } else if c == 0x0F {
            Some(PayloadType::RawCustom)
        } else {
            None
        }
    }

    /// The four-bit code of this payload type.
    pub fn bits(self) -> (r: u8)
        ensures
            r == self.code(),
            r < 16,
    {
        match self {
            PayloadType::Request => 0x00,
            PayloadType::Response => 0x01,
            PayloadType::TextMessage => 0x02,
            PayloadType::Ack => 0x03,
            PayloadType::Advert => 0x04,
            PayloadType::GroupText => 0x05,
            PayloadType::GroupData => 0x06,
            PayloadType::AnonRequest => 0x07,
            PayloadType::Path => 0x08,
            PayloadType::Trace => 0x09,
            PayloadType::Multipart => 0x0A,
            PayloadType::Control => 0x0B,
            PayloadType::RawCustom => 0x0F,
        }
    }

    /// The payload type held in bits 2-5 of a header byte, if that code
    /// names one.
    pub fn from_bits(b: u8) -> (r: Option<Self>)
        ensures
            r == PayloadType::of_code(((b / 4) % 16) as u8),
    {
        let c = (b >> 2) & 0x0F;
        assert((b >> 2) & 0x0F == (b / 4) % 16) by (bit_vector);
        match c {
            0x00 => Some(PayloadType::Request),
            0x01 => Some(PayloadType::Response),
            0x02 => Some(PayloadType::TextMessage),
            0x03 => Some(PayloadType::Ack),
            0x04 => Some(PayloadType::Advert),
            0x05 => Some(PayloadType::GroupText),
            0x06 => Some(PayloadType::GroupData),
            0x07 => Some(PayloadType::AnonRequest),
            0x08 => Some(PayloadType::Path),
            0x09 => Some(PayloadType::Trace),
            0x0A => Some(PayloadType::Multipart),
            0x0B => Some(PayloadType::Control),
            0x0F => Some(PayloadType::RawCustom),
            _ => None,
        }
    }
}

/// Size in bytes of each node hash in a path, held in bits 6-7 of the
/// path-length byte.
#[derive(Debug, Clone, Copy, PartialEq, Eq, Structural)]
pub enum HashSize {
    One,
    Two,
    Three,
}

impl HashSize {
    /// Bytes per node hash.
    pub open spec fn size(self) -> nat {
        match self {
            HashSize::One => 1,
            HashSize::Two => 2,
            HashSize::Three => 3,
        }
    }

    /// The hash size held in bits 6-7 of a path-length byte; the code 3 is
    /// reserved and names none.
    pub open spec fn of_code(c: u8) -> Option<HashSize> {
        if c == 0 {
            Some(HashSize::One)
        } else if c == 1 {
            Some(HashSize::Two)
        } else if c == 2 {
            Some(HashSize::Three)
        } else {
            None
        }
    }

    /// Bytes per node hash.
    pub fn bytes(self) -> (r: usize)
        ensures
            r == self.size(),
            1 <= r <= 3,
    {
        match self {
            HashSize::One => 1,
            HashSize::Two => 2,
            HashSize::Three => 3,
        }
    }

    /// The hash size held in bits 6-7 of a path-length byte.
    pub fn from_bits(b: u8) -> (r: Option<Self>)
        ensures
            r == HashSize::of_code(b / 64),
    {
        let c = (b >> 6) & 0b11;
        assert((b >> 6) & 3 == b / 64) by (bit_vector);
        match c {
            0 => Some(HashSize::One),
            1 => Some(HashSize::Two),
            2 => Some(HashSize::Three),
            _ => None,
        }
    }
}

} // verus!
