//! Byte buffers used by the protocol codec.
//!
//! An [`Owned`] is a growable buffer with a filled region and a number of unfilled bytes that
//! may still be written into it. Freezing the filled region of an `Owned` produces a [`Shared`],
//! an immutable, cheaply cloneable view of a byte range that can be drained and split without
//! copying. A [`BufferPool`] hands out `Owned`s.
use std::sync::Arc;
use vstd::prelude::*;

pub mod accumulators;
pub use accumulators::{
    BytesAccumulator, BytesAccumulatorImpl, EitherAccumulator, Iovecs, SingleAccumulator,
};

verus! {

/// Insufficient capacity in buffer pool.
#[derive(Clone, Copy, Debug, PartialEq, Eq)]
pub struct Error;

/// `Arc::clone`: makes another pointer to the same allocation, so the value seen through the
/// result is the value seen through the argument.
#[verifier::external_body]
fn arc_clone(a: &Arc<Vec<u8>>) -> (r: Arc<Vec<u8>>)
    ensures
        *r == **a,
{
    Arc::clone(a)
}

/// An immutable view of a range of a reference-counted byte buffer.
#[derive(Debug)]
pub struct Shared {
    buf: Arc<Vec<u8>>,
    start: usize,
    end: usize,
}

impl Shared {
    #[verifier::type_invariant]
    spec fn inv(self) -> bool {
        self.start <= self.end <= (*self.buf)@.len()
    }
}

impl View for Shared {
    type V = Seq<u8>;

    closed spec fn view(&self) -> Seq<u8> {
        (*self.buf)@.subrange(self.start as int, self.end as int)
    }
}

impl Clone for Shared {
    fn clone(&self) -> (r: Self)
        ensures
            r@ == self@,
    {
        proof {
            use_type_invariant(self);
        }
        Shared { buf: arc_clone(&self.buf), start: self.start, end: self.end }
    }
}

impl PartialEq for Shared {
    fn eq(&self, other: &Self) -> (r: bool) {
        bytes_eq(self.as_slice(), other.as_slice())
    }
}

impl vstd::std_specs::cmp::PartialEqSpecImpl for Shared {
    open spec fn obeys_eq_spec() -> bool {
        true
    }

    open spec fn eq_spec(&self, other: &Self) -> bool {
        self@ == other@
    }
}

impl Eq for Shared {
}

impl Shared {
    /// Creates a `Shared` holding exactly the given bytes.
    pub fn from_vec(v: Vec<u8>) -> (r: Self)
        ensures
            r@ == v@,
    {
        let end = v.len();
        let r = Shared { buf: Arc::new(v), start: 0, end };
        assert(r@ =~= v@);
        r
    }

    /// Creates a `Shared` holding a copy of the given bytes.
    pub fn copy_from_slice(s: &[u8]) -> (r: Self)
        ensures
            r@ == s@,
    {
        Self::from_vec(vstd::slice::slice_to_vec(s))
    }

    /// Creates an empty `Shared`.
    pub fn empty() -> (r: Self)
        ensures
            r@ == Seq::<u8>::empty(),
    {
        Self::from_vec(Vec::new())
    }

    /// Copies `value` into `owned`, which must have nothing filled, and freezes it.
    pub fn new(owned: &mut Owned, value: &[u8]) -> (r: Result<Self, Error>)
        requires
            old(owned)@.0.len() == 0,
        ensures
            r matches Ok(s) && s@ == value@,
            final(owned)@.0.len() == 0,
    {
        let len = value.len();
        let _ = owned.reserve(len);
        owned.put_slice(value);
        let filled_len = owned.filled_len();
        let shared = owned.split_to(filled_len).freeze();
        Ok(shared)
    }

    /// Makes a deep copy of this `Shared` into a new buffer taken from `owned`.
    pub fn copy_to_shared(&self, owned: &mut Owned) -> (r: Result<Self, Error>)
        requires
            old(owned)@.0.len() == 0,
        ensures
            r matches Ok(s) && s@ == self@,
            final(owned)@.0.len() == 0,
    {
        Shared::new(owned, self.as_slice())
    }

    /// The bytes of this `Shared`.
    pub fn as_slice(&self) -> (r: &[u8])
        ensures
            r@ == self@,
    {
        proof {
            use_type_invariant(self);
        }
        vstd::slice::slice_subrange((*self.buf).as_slice(), self.start, self.end)
    }

    pub fn len(&self) -> (r: usize)
        ensures
            r == self@.len(),
    {
        proof {
            use_type_invariant(self);
        }
        self.end - self.start
    }

    pub fn is_empty(&self) -> (r: bool)
        ensures
            r == (self@.len() == 0),
    {
        proof {
            use_type_invariant(self);
        }
        self.end == self.start
    }

    /// Retains the range `i..` in `self`.
    pub fn drain(&mut self, i: usize)
        requires
            i <= old(self)@.len(),
        ensures
            final(self)@ == old(self)@.skip(i as int),
    {
        proof {
            use_type_invariant(&*self);
        }
        self.start = self.start + i;
        proof {
            assert(self@ =~= old(self)@.skip(i as int));
        }
    }

    /// Retains the range `i..` in `self`, and returns a new `Shared` for the range `0..i`.
    pub fn split_to(&mut self, i: usize) -> (r: Self)
        requires
            i <= old(self)@.len(),
        ensures
            r@ == old(self)@.take(i as int),
            final(self)@ == old(self)@.skip(i as int),
    {
        proof {
            use_type_invariant(&*self);
        }
        let r = Shared { buf: arc_clone(&self.buf), start: self.start, end: self.start + i };
        self.start = self.start + i;
        proof {
            assert(r@ =~= old(self)@.take(i as int));
            assert(self@ =~= old(self)@.skip(i as int));
        }
        r
    }

    /// Gets a `u8` from this buffer. Returns `None` if there are insufficient bytes.
    pub fn get_u8(&mut self) -> (r: Option<u8>)
        ensures
            old(self)@.len() < 1 ==> r is None && final(self)@ == old(self)@,
            old(self)@.len() >= 1 ==> r == Some(old(self)@[0]) && final(self)@ == old(self)@.skip(1),
    {
        if self.len() < 1 {
            return None;
        }
        let n = self.as_slice()[0];
        self.drain(1);
        Some(n)
    }

    /// Gets a big-endian `u16` from this buffer. Returns `None` if there are insufficient bytes.
    pub fn get_u16_be(&mut self) -> (r: Option<u16>)
        ensures
            old(self)@.len() < 2 ==> r is None && final(self)@ == old(self)@,
            old(self)@.len() >= 2 ==> r == Some(be_u16(old(self)@)) && final(self)@ == old(self)@.skip(2),
    {
        if self.len() < 2 {
            return None;
        }
        let s = self.as_slice();
        let n = (s[0] as u16) * 256 + (s[1] as u16);
        self.drain(2);
        Some(n)
    }

    /// Gets a big-endian `u32` from this buffer. Returns `None` if there are insufficient bytes.
    pub fn get_u32_be(&mut self) -> (r: Option<u32>)
        ensures
            old(self)@.len() < 4 ==> r is None && final(self)@ == old(self)@,
            old(self)@.len() >= 4 ==> r == Some(be_u32(old(self)@)) && final(self)@ == old(self)@.skip(4),
    {
        if self.len() < 4 {
            return None;
        }
        let s = self.as_slice();
        let n = (s[0] as u32) * 16777216 + (s[1] as u32) * 65536 + (s[2] as u32) * 256 + (s[3] as u32);
        self.drain(4);
        Some(n)
    }

    /// Gets a big-endian `u64` from this buffer. Returns `None` if there are insufficient bytes.
    pub fn get_u64_be(&mut self) -> (r: Option<u64>)
        ensures
            old(self)@.len() < 8 ==> r is None && final(self)@ == old(self)@,
            old(self)@.len() >= 8 ==> r == Some(be_u64(old(self)@)) && final(self)@ == old(self)@.skip(8),
    {
        if self.len() < 8 {
            return None;
        }
        let s = self.as_slice();
        let hi = (s[0] as u32) * 16777216 + (s[1] as u32) * 65536 + (s[2] as u32) * 256 + (s[3] as u32);
        let lo = (s[4] as u32) * 16777216 + (s[5] as u32) * 65536 + (s[6] as u32) * 256 + (s[7] as u32);
        let n = (hi as u64) * 4294967296 + (lo as u64);
        self.drain(8);
        Some(n)
    }
}

/// Whether two byte slices hold the same bytes.
pub fn bytes_eq(a: &[u8], b: &[u8]) -> (r: bool)
    ensures
        r == (a@ == b@),
{
    if a.len() != b.len() {
        return false;
    }
    let mut i: usize = 0;
    while i < a.len()
        invariant
            a@.len() == b@.len(),
            i <= a@.len(),
            forall|j: int| 0 <= j < i ==> a@[j] == b@[j],
        decreases a@.len() - i,
    {
        if a[i] != b[i] {
            return false;
        }
        i = i + 1;
    }
    assert(a@ =~= b@);
    true
}

/// The big-endian `u16` at the start of `s`.
pub open spec fn be_u16(s: Seq<u8>) -> u16 {
    (s[0] * 256 + s[1]) as u16
}

/// The big-endian `u32` at the start of `s`.
pub open spec fn be_u32(s: Seq<u8>) -> u32 {
    (s[0] * 16777216 + s[1] * 65536 + s[2] * 256 + s[3]) as u32
}

/// The big-endian `u64` at the start of `s`.
pub open spec fn be_u64(s: Seq<u8>) -> u64 {
    (be_u32(s) * 4294967296 + be_u32(s.skip(4))) as u64
}

/// The big-endian encoding of a `u16`.
pub open spec fn u16_be_bytes(v: u16) -> Seq<u8> {
    seq![(v / 256) as u8, (v % 256) as u8]
}

/// The big-endian encoding of a `u32`.
pub open spec fn u32_be_bytes(v: u32) -> Seq<u8> {
    seq![(v / 16777216) as u8, ((v / 65536) % 256) as u8, ((v / 256) % 256) as u8, (v % 256) as u8]
}

/// Reading back a big-endian `u16` gives the value, whatever follows it.
pub proof fn lemma_be_u16_roundtrip(v: u16, rest: Seq<u8>)
    ensures
        be_u16(u16_be_bytes(v) + rest) == v,
        u16_be_bytes(v).len() == 2,
{
    let s = u16_be_bytes(v) + rest;
    assert(s[0] == (v / 256) as u8);
    assert(s[1] == (v % 256) as u8);
}

/// Reading back a big-endian `u32` gives the value, whatever follows it.
pub proof fn lemma_be_u32_roundtrip(v: u32, rest: Seq<u8>)
    ensures
        be_u32(u32_be_bytes(v) + rest) == v,
        u32_be_bytes(v).len() == 4,
{
    let s = u32_be_bytes(v) + rest;
    assert(s[0] == (v / 16777216) as u8);
    assert(s[1] == ((v / 65536) % 256) as u8);
    assert(s[2] == ((v / 256) % 256) as u8);
    assert(s[3] == (v % 256) as u8);
    assert((v / 16777216) * 16777216 + ((v / 65536) % 256) * 65536 + ((v / 256) % 256) * 256 + v % 256
        == v) by (nonlinear_arith);
}

/// Two- and four-byte integers are in network byte order: the most significant byte comes first,
/// and each byte weighs 256 times the one after it.
///
/// Ref: 1.5.2 Two Byte Integer; 1.5.3 Four Byte Integer
pub proof fn lemma_network_byte_order(a: u16, b: u32, s: Seq<u8>)
    requires
        s.len() >= 4,
    ensures
        u16_be_bytes(a).len() == 2,
        u16_be_bytes(a)[0] * 256 + u16_be_bytes(a)[1] == a,
        u16_be_bytes(a)[0] == a / 256,
        u32_be_bytes(b).len() == 4,
        u32_be_bytes(b)[0] * 16777216 + u32_be_bytes(b)[1] * 65536 + u32_be_bytes(b)[2] * 256
            + u32_be_bytes(b)[3] == b,
        u32_be_bytes(b)[0] == b / 16777216,
        u32_be_bytes(b)[3] == b % 256,
        be_u16(s) == s[0] * 256 + s[1],
        be_u32(s) == s[0] * 16777216 + s[1] * 65536 + s[2] * 256 + s[3],
{
    assert((b / 16777216) * 16777216 + ((b / 65536) % 256) * 65536 + ((b / 256) % 256) * 256 + b % 256
        == b) by (nonlinear_arith);
    assert(s[0] * 256 + s[1] <= u16::MAX) by (nonlinear_arith)
        requires
            s[0] <= 255,
            s[1] <= 255,
    ;
    assert(s[0] * 16777216 + s[1] * 65536 + s[2] * 256 + s[3] <= u32::MAX) by (nonlinear_arith)
        requires
            s[0] <= 255,
            s[1] <= 255,
            s[2] <= 255,
            s[3] <= 255,
    ;
}

/// A growable buffer with a filled region and some room left to fill.
pub struct Owned {
    filled: Vec<u8>,
    unfilled: usize,
}

impl View for Owned {
    /// The filled bytes and the number of bytes that can still be filled.
    type V = (Seq<u8>, nat);

    closed spec fn view(&self) -> (Seq<u8>, nat) {
        (self.filled@, self.unfilled as nat)
    }
}

impl Owned {
    /// An empty `Owned` with room for `capacity` bytes.
    pub fn with_capacity(capacity: usize) -> (r: Self)
        ensures
            r@ == (Seq::<u8>::empty(), capacity as nat),
    {
        Owned { filled: Vec::new(), unfilled: capacity }
    }

    pub fn filled_len(&self) -> (r: usize)
        ensures
            r == self@.0.len(),
    {
        self.filled.len()
    }

    pub fn filled_is_empty(&self) -> (r: bool)
        ensures
            r == (self@.0.len() == 0),
    {
        self.filled.len() == 0
    }

    pub fn filled(&self) -> (r: &[u8])
        ensures
            r@ == self@.0,
    {
        self.filled.as_slice()
    }

    pub fn unfilled_len(&self) -> (r: usize)
        ensures
            r == self@.1,
    {
        self.unfilled
    }

    /// Removes the given number of bytes from the start of the filled region.
    pub fn drain(&mut self, n: usize)
        requires
            n <= old(self)@.0.len(),
        ensures
            final(self)@ == (old(self)@.0.skip(n as int), old(self)@.1),
    {
        let rest = self.filled.split_off(n);
        self.filled = rest;
        proof {
            assert(self.filled@ =~= old(self)@.0.skip(n as int));
        }
    }

    /// Retains the range `i..` of the filled region in `self`, and returns a new `Owned`
    /// for the range `0..i`.
    pub fn split_to(&mut self, i: usize) -> (r: Self)
        requires
            i <= old(self)@.0.len(),
        ensures
            r@ == (old(self)@.0.take(i as int), 0nat),
            final(self)@ == (old(self)@.0.skip(i as int), old(self)@.1),
    {
        let mut head = self.filled.split_off(0);
        let rest = head.split_off(i);
        self.filled = rest;
        proof {
            assert(head@ =~= old(self)@.0.take(i as int));
            assert(self.filled@ =~= old(self)@.0.skip(i as int));
        }
        Owned { filled: head, unfilled: 0 }
    }

    /// Converts the filled region into a `Shared`.
    pub fn freeze(self) -> (r: Shared)
        ensures
            r@ == self@.0,
    {
        Shared::from_vec(self.filled)
    }

    /// Appends the given bytes to the filled region.
    pub fn put_slice(&mut self, src: &[u8])
        requires
            src@.len() <= old(self)@.1,
        ensures
            final(self)@ == (old(self)@.0 + src@, (old(self)@.1 - src@.len()) as nat),
    {
        self.filled.extend_from_slice(src);
        self.unfilled = self.unfilled - src.len();
        proof {
            assert(self.filled@ =~= old(self)@.0 + src@);
        }
    }

    /// Increases the unfilled region to at least `new_unfilled_len` bytes.
    pub fn reserve(&mut self, new_unfilled_len: usize) -> (r: Result<(), Error>)
        ensures
            r is Ok,
            final(self)@.0 == old(self)@.0,
            final(self)@.1 == if old(self)@.1 >= new_unfilled_len { old(self)@.1 } else { new_unfilled_len as nat },
    {
        if self.unfilled < new_unfilled_len {
            self.unfilled = new_unfilled_len;
        }
        Ok(())
    }
}

/// A source of buffers.
pub trait BufferPool {
    /// Returns an empty buffer with room for at least `len` bytes.
    fn take_owned(&self, len: usize) -> (r: Result<Owned, Error>)
        ensures
            r matches Ok(o) ==> o@.0.len() == 0 && o@.1 >= len,
    ;

    /// Returns an empty buffer. This is infallible.
    fn take_empty_owned(&self) -> (r: Owned)
        ensures
            r@.0.len() == 0,
    ;
}

/// A pool that allocates a fresh buffer for every request.
#[derive(Clone, Copy, Debug)]
pub struct BufferPoolImpl;

impl BufferPoolImpl {
    pub fn new() -> (r: Self) {
        BufferPoolImpl
    }
}

impl BufferPool for BufferPoolImpl {
    fn take_owned(&self, len: usize) -> (r: Result<Owned, Error>)
        ensures
            r matches Ok(o) && o@.0.len() == 0 && o@.1 == len,
    {
        Ok(Owned::with_capacity(len))
    }

    fn take_empty_owned(&self) -> (r: Owned)
        ensures
            r@ == (Seq::<u8>::empty(), 0nat),
    {
        Owned::with_capacity(0)
    }
}

} // verus!
