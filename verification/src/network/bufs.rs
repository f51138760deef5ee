//! Fixed-capacity byte buffers backed by `heapless::Vec`.
//!
//! The radio stack never allocates: payloads live in a buffer of
//! `MAX_PAYLOAD_LEN` bytes and forwarding paths in one of `MAX_PATH_LEN`
//! node hashes.  Each buffer is modelled by the sequence of bytes it holds,
//! which never grows past its capacity.
use vstd::prelude::*;

verus! {

#[verifier::external_type_specification]
#[verifier::external_body]
pub struct ExCapacityError(heapless::CapacityError);

/// Bytes of a payload buffer: `heapless::Vec<u8, 184>`.
#[verifier::external_body]
pub struct PayloadBuffer {
    inner: heapless::Vec<u8, 184>,
}

/// The bytes held by a payload buffer, oldest first.
pub uninterp spec fn payload_buffer_items(b: PayloadBuffer) -> Seq<u8>;

impl View for PayloadBuffer {
    type V = Seq<u8>;

    open spec fn view(&self) -> Seq<u8> {
        payload_buffer_items(*self)
    }
}

/// `heapless::Vec::new`: a fresh vector holds nothing.
#[verifier::external_body]
fn payload_new() -> (b: PayloadBuffer)
    ensures
        payload_buffer_items(b) == Seq::<u8>::empty(),
{
    PayloadBuffer { inner: heapless::Vec::new() }
}

/// `heapless::Vec::as_slice`: the slice holds exactly the items, and the
/// items never exceed the capacity of 184.
#[verifier::external_body]
fn payload_as_slice(b: &PayloadBuffer) -> (s: &[u8])
    ensures
        s@ == payload_buffer_items(*b),
        s@.len() <= 184,
{
    b.inner.as_slice()
}

/// `heapless::Vec::clear`: afterwards the vector holds nothing.
#[verifier::external_body]
fn payload_clear(b: &mut PayloadBuffer)
    ensures
        payload_buffer_items(*final(b)) == Seq::<u8>::empty(),
{
    b.inner.clear()
}

/// `heapless::Vec::push`: appends when the vector holds fewer than 184 items,
/// otherwise hands the item back and leaves the vector unchanged.
#[verifier::external_body]
fn payload_push(b: &mut PayloadBuffer, item: u8) -> (r: Result<(), u8>)
    ensures
        payload_buffer_items(*old(b)).len() < 184 ==> r is Ok && payload_buffer_items(*final(b))
            == payload_buffer_items(*old(b)).push(item),
        payload_buffer_items(*old(b)).len() >= 184 ==> (r matches Err(x) && x == item)
            && payload_buffer_items(*final(b)) == payload_buffer_items(*old(b)),
{
    b.inner.push(item)
}

/// `heapless::Vec::extend_from_slice`: appends the whole slice when it fits in
/// the capacity of 184, otherwise fails and leaves the vector unchanged.
#[verifier::external_body]
fn payload_extend(b: &mut PayloadBuffer, other: &[u8]) -> (r: Result<(), heapless::CapacityError>)
    ensures
        payload_buffer_items(*old(b)).len() + other@.len() <= 184 ==> r is Ok
            && payload_buffer_items(*final(b)) == payload_buffer_items(*old(b)) + other@,
        payload_buffer_items(*old(b)).len() + other@.len() > 184 ==> r is Err
            && payload_buffer_items(*final(b)) == payload_buffer_items(*old(b)),
{
    b.inner.extend_from_slice(other)
}

impl PayloadBuffer {
    /// An empty payload buffer.
    pub fn new() -> (b: PayloadBuffer)
        ensures
            b@ == Seq::<u8>::empty(),
    {
        payload_new()
    }

    /// The bytes held, as a slice.
    pub fn as_slice(&self) -> (s: &[u8])
        ensures
            s@ == self@,
            s@.len() <= 184,
    {
        payload_as_slice(self)
    }

    /// Remove every byte.
    pub fn clear(&mut self)
        ensures
            final(self)@ == Seq::<u8>::empty(),
    {
        payload_clear(self)
    }

    /// Append one byte; fails, handing the byte back, when the buffer is full.
    pub fn push(&mut self, item: u8) -> (r: Result<(), u8>)
        ensures
            old(self)@.len() < 184 ==> r is Ok && final(self)@ == old(self)@.push(item),
            old(self)@.len() >= 184 ==> (r matches Err(x) && x == item) && final(self)@ == old(self)@,
    {
        payload_push(self, item)
    }

    /// Append a slice; fails, appending nothing, when it does not fit.
    pub fn extend_from_slice(&mut self, other: &[u8]) -> (r: Result<(), ()>)
        ensures
            old(self)@.len() + other@.len() <= 184 <==> r is Ok,
            r is Ok ==> final(self)@ == old(self)@ + other@,
            r is Err ==> final(self)@ == old(self)@,
    {
        match payload_extend(self, other) {
            Ok(()) => Ok(()),
            Err(_) => Err(()),
        }
    }

    /// Copy of the bytes held.
    pub fn to_vec(&self) -> (v: Vec<u8>)
        ensures
            v@ == self@,
    {
        copy_bytes(self.as_slice())
    }
}

/// A fresh vector holding the bytes of a slice.
pub fn copy_bytes(s: &[u8]) -> (v: Vec<u8>)
    ensures
        v@ == s@,
{
    let mut v: Vec<u8> = Vec::new();
    let mut i: usize = 0;
    while i < s.len()
        invariant
            i <= s@.len(),
            v@ == s@.subrange(0, i as int),
        decreases s@.len() - i,
    {
        v.push(s[i]);
        i = i + 1;
    }
    v
}

/// Node hashes of a forwarding path: `heapless::Vec<u8, 64>`.
#[verifier::external_body]
pub struct PathBuffer {
    inner: heapless::Vec<u8, 64>,
}

/// The node hashes held by a path buffer, in hop order.
pub uninterp spec fn path_buffer_items(b: PathBuffer) -> Seq<u8>;

impl View for PathBuffer {
    type V = Seq<u8>;

    open spec fn view(&self) -> Seq<u8> {
        path_buffer_items(*self)
    }
}

/// `heapless::Vec::new`: a fresh vector holds nothing.
#[verifier::external_body]
fn path_new() -> (b: PathBuffer)
    ensures
        path_buffer_items(b) == Seq::<u8>::empty(),
{
    PathBuffer { inner: heapless::Vec::new() }
}

/// `heapless::Vec::as_slice`: the slice holds exactly the items, and the
/// items never exceed the capacity of 64.
#[verifier::external_body]
fn path_as_slice(b: &PathBuffer) -> (s: &[u8])
    ensures
        s@ == path_buffer_items(*b),
        s@.len() <= 64,
{
    b.inner.as_slice()
}

/// `heapless::Vec::push`: appends when the vector holds fewer than 64 items,
/// otherwise hands the item back and leaves the vector unchanged.
#[verifier::external_body]
fn path_push(b: &mut PathBuffer, item: u8) -> (r: Result<(), u8>)
    ensures
        path_buffer_items(*old(b)).len() < 64 ==> r is Ok && path_buffer_items(*final(b))
            == path_buffer_items(*old(b)).push(item),
        path_buffer_items(*old(b)).len() >= 64 ==> (r matches Err(x) && x == item)
            && path_buffer_items(*final(b)) == path_buffer_items(*old(b)),
{
    b.inner.push(item)
}

impl PathBuffer {
    /// An empty path.
    pub fn new() -> (b: PathBuffer)
        ensures
            b@ == Seq::<u8>::empty(),
    {
        path_new()
    }

    /// The node hashes held, as a slice.
    pub fn as_slice(&self) -> (s: &[u8])
        ensures
            s@ == self@,
            s@.len() <= 64,
    {
        path_as_slice(self)
    }

    /// Append one node hash; fails, handing it back, when the path is full.
    pub fn push(&mut self, item: u8) -> (r: Result<(), u8>)
        ensures
            old(self)@.len() < 64 ==> r is Ok && final(self)@ == old(self)@.push(item),
            old(self)@.len() >= 64 ==> (r matches Err(x) && x == item) && final(self)@ == old(self)@,
    {
        path_push(self, item)
    }

    /// A path holding the given node hashes, when they fit.
    pub fn from_slice(hashes: &[u8]) -> (r: Option<PathBuffer>)
        ensures
            hashes@.len() <= 64 <==> r is Some,
            r matches Some(b) ==> b@ == hashes@,
    {
        if hashes.len() > 64 {
            return None;
        }
        let mut b = PathBuffer::new();
        let mut i: usize = 0;
        while i < hashes.len()
            invariant
                i <= hashes@.len() <= 64,
                b@ == hashes@.subrange(0, i as int),
            decreases hashes@.len() - i,
        {
            let _ = b.push(hashes[i]);
            i = i + 1;
        }
        Some(b)
    }
}

} // verus!
