//! Requests carried in group text messages: a node answers a message that
//! names its tag (`#42` for node 0x42) and a sensor keyword.
use vstd::prelude::*;
use vstd::utf8::valid_utf8;
use crate::network::types::NODE_ID;

verus! {

/// `core::str::from_utf8(bytes).is_ok()`: whether the bytes are valid UTF-8.
#[verifier::external_body]
pub(crate) fn utf8_is_valid(bytes: &[u8]) -> (r: bool)
    ensures
        r == valid_utf8(bytes@),
{
    core::str::from_utf8(bytes).is_ok()
}

/// What a request asks for.
#[derive(Debug, Clone, Copy, PartialEq, Eq, Structural)]
pub enum RequestKey {
    /// Data from the full sensor suite.
    DataAll,
    /// Wind speed sensor.
    Wss,
    /// Air quality sensor.
    Aqs,
    /// Soil moisture sensor.
    Sms,
    /// Tipping bucket sensor.
    Tbs,
}

/// Whether `needle` occurs in `hay` as a contiguous run of bytes.
pub open spec fn contains_bytes(hay: Seq<u8>, needle: Seq<u8>) -> bool {
    exists|i: int|
        0 <= i && i + needle.len() <= hay.len() && #[trigger] hay.subrange(i, i + needle.len())
            == needle
}

/// Lower-case ASCII hex digit of a value below 16.
pub open spec fn hex_digit(d: u8) -> u8 {
    if d < 10 {
        (48 + d) as u8
    } else {
        (87 + d) as u8
    }
}

/// This node's addressing tag: `#` and its identity hash as two lower-case
/// hex digits.
pub open spec fn node_tag_bytes() -> Seq<u8> {
    seq![35u8, hex_digit(NODE_ID / 16), hex_digit(NODE_ID % 16)]
}

/// ASCII `DATA`.
pub open spec fn data_keyword() -> Seq<u8> {
    seq![68u8, 65u8, 84u8, 65u8]
}

/// ASCII `WSS`.
pub open spec fn wss_keyword() -> Seq<u8> {
    seq![87u8, 83u8, 83u8]
}

/// ASCII `AQS`.
pub open spec fn aqs_keyword() -> Seq<u8> {
    seq![65u8, 81u8, 83u8]
}

/// ASCII `SMS`.
pub open spec fn sms_keyword() -> Seq<u8> {
    seq![83u8, 77u8, 83u8]
}

/// ASCII `TBS`.
pub open spec fn tbs_keyword() -> Seq<u8> {
    seq![84u8, 66u8, 83u8]
}

/// The request named by a message text addressed to this node: the first
/// keyword present in the order WSS, AQS, SMS, TBS, DATA.
pub open spec fn request_in_text(text: Seq<u8>) -> Option<RequestKey> {
    if !contains_bytes(text, node_tag_bytes()) {
        None
    } else if contains_bytes(text, wss_keyword()) {
        Some(RequestKey::Wss)
    } else if contains_bytes(text, aqs_keyword()) {
        Some(RequestKey::Aqs)
    } else if contains_bytes(text, sms_keyword()) {
        Some(RequestKey::Sms)
    } else if contains_bytes(text, tbs_keyword()) {
        Some(RequestKey::Tbs)
    } else if contains_bytes(text, data_keyword()) {
        Some(RequestKey::DataAll)
    } else {
        None
    }
}

/// The request in a decrypted group message: a 4-byte timestamp followed by
/// UTF-8 text.
pub open spec fn request_in_plaintext(plaintext: Seq<u8>) -> Option<RequestKey> {
    if plaintext.len() <= 4 {
        None
    } else {
        let text = plaintext.subrange(4, plaintext.len() as int);
        if !valid_utf8(text) {
            None
        } else {
            request_in_text(text)
        }
    }
}

/// Whether `needle` occurs in `hay`.
pub fn contains_subslice(hay: &[u8], needle: &[u8]) -> (r: bool)
    ensures
        r == contains_bytes(hay@, needle@),
{
    let n = hay.len();
    let m = needle.len();
    if m > n {
        assert(!contains_bytes(hay@, needle@));
        return false;
    }
    let mut i: usize = 0;
    while i <= n - m
        invariant
            n == hay@.len(),
            m == needle@.len(),
            m <= n,
            i <= n - m + 1,
            forall|k: int| 0 <= k < i ==> #[trigger] hay@.subrange(k, k + m) != needle@,
        decreases n - i,
    {
        let mut j: usize = 0;
        let mut same = true;
        while j < m
            invariant
                n == hay@.len(),
                m == needle@.len(),
                i + m <= n,
                j <= m,
                same == (forall|t: int| 0 <= t < j ==> hay@[i + t] == needle@[t]),
            decreases m - j,
        {
            if hay[i + j] != needle[j] {
                same = false;
            }
            j = j + 1;
        }
        if same {
            assert(hay@.subrange(i as int, i + m) =~= needle@);
            return true;
        }
        assert(hay@.subrange(i as int, i + m) != needle@) by {
            let t = choose|t: int| 0 <= t < m && hay@[i + t] != needle@[t];
            assert(hay@.subrange(i as int, i + m)[t] == hay@[i + t]);
        }
        i = i + 1;
    }
    assert(!contains_bytes(hay@, needle@)) by {
        if contains_bytes(hay@, needle@) {
            let k = choose|k: int|
                0 <= k && k + m <= n && #[trigger] hay@.subrange(k, k + m) == needle@;
            assert(k < i);
        }
    }
    false
}

/// Lower-case hex digit of a value below 16.
fn hex_digit_of(d: u8) -> (c: u8)
    requires
        d < 16,
    ensures
        c == hex_digit(d),
{
    if d < 10 {
        48 + d
    } else {
        87 + d
    }
}

impl RequestKey {
    /// This node's addressing tag, `#42` for node 0x42. A sender writes it
    /// next to a keyword (`DATA #42`) to address this node rather than every
    /// node on the channel.
    pub fn node_tag() -> (t: Vec<u8>)
        ensures
            t@ == node_tag_bytes(),
    {
        let mut t: Vec<u8> = Vec::new();
        t.push(35u8);
        t.push(hex_digit_of(NODE_ID / 16));
        t.push(hex_digit_of(NODE_ID % 16));
        assert(t@ =~= node_tag_bytes());
        t
    }

    /// The request in a decrypted group message (timestamp, then text): none
    /// unless the text is valid UTF-8 and carries this node's tag; otherwise
    /// the first keyword found, checked in the order WSS, AQS, SMS, TBS, DATA.
    pub fn parse(plaintext: &[u8]) -> (r: Option<Self>)
        ensures
            r == request_in_plaintext(plaintext@),
    {
        if plaintext.len() <= 4 {
            return None;
        }
        let text = vstd::slice::slice_subrange(plaintext, 4, plaintext.len());
        if !utf8_is_valid(text) {
            return None;
        }
        let tag = Self::node_tag();
        if !contains_subslice(text, tag.as_slice()) {
            return None;
        }
        let wss: [u8; 3] = [87u8, 83u8, 83u8];
        let aqs: [u8; 3] = [65u8, 81u8, 83u8];
        let sms: [u8; 3] = [83u8, 77u8, 83u8];
        let tbs: [u8; 3] = [84u8, 66u8, 83u8];
        let data: [u8; 4] = [68u8, 65u8, 84u8, 65u8];
        assert(wss@ =~= wss_keyword());
        assert(aqs@ =~= aqs_keyword());
        assert(sms@ =~= sms_keyword());
        assert(tbs@ =~= tbs_keyword());
        assert(data@ =~= data_keyword());
        if contains_subslice(text, &wss) {
            Some(RequestKey::Wss)
        } else if contains_subslice(text, &aqs) {
            Some(RequestKey::Aqs)
        } else if contains_subslice(text, &sms) {
            Some(RequestKey::Sms)
        } else if contains_subslice(text, &tbs) {
            Some(RequestKey::Tbs)
        } else if contains_subslice(text, &data) {
            Some(RequestKey::DataAll)
        } else {
            None
        }
    }
}

} // verus!
