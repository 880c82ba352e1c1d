//! Binary data: bytes prefixed with their two-byte big-endian length.
//!
//! Ref: 1.5.6 Binary Data
use vstd::prelude::*;

use crate::buffer_pool::{self, BytesAccumulator, Owned, Shared};
use crate::mqtt_proto::{DecodeError, DecodeErrorView, EncodeError};

verus! {

/// Whether `s` is a two-byte big-endian length followed by exactly that many bytes.
pub open spec fn is_length_prefixed(s: Seq<u8>) -> bool {
    s.len() >= 2 && buffer_pool::be_u16(s) == s.len() - 2
}

/// The length-prefixed encoding of `content`.
pub open spec fn length_prefixed(content: Seq<u8>) -> Seq<u8> {
    buffer_pool::u16_be_bytes(content.len() as u16) + content
}

/// The length-prefixed item at the start of `s`, if `s` holds all of it.
pub open spec fn spec_split_length_prefixed(s: Seq<u8>) -> Option<Seq<u8>> {
    if s.len() < 2 {
        None
    } else if s.len() < 2 + buffer_pool::be_u16(s) {
        None
    } else {
        Some(s.take(2 + buffer_pool::be_u16(s)))
    }
}

/// Facts about length-prefixed encodings.
pub proof fn lemma_length_prefixed(content: Seq<u8>, rest: Seq<u8>)
    requires
        content.len() <= 65535,
    ensures
        is_length_prefixed(length_prefixed(content)),
        length_prefixed(content).skip(2) == content,
        length_prefixed(content).len() == content.len() + 2,
        spec_split_length_prefixed(length_prefixed(content) + rest) == Some(length_prefixed(content)),
{
    let p = length_prefixed(content);
    let s = p + rest;
    assert(p.skip(2) =~= content);
    assert(s[0] == p[0] && s[1] == p[1]);
    assert(s.take(2 + buffer_pool::be_u16(s)) =~= p);
}

/// A length-prefixed item is its content with its length put in front.
pub proof fn lemma_is_length_prefixed(s: Seq<u8>)
    requires
        is_length_prefixed(s),
    ensures
        s == length_prefixed(s.skip(2)),
        s.skip(2).len() <= 65535,
{
    assert(s =~= length_prefixed(s.skip(2)));
}

/// Splits the length-prefixed item at the start of `src` off `src`. Returns `None`, leaving
/// `src` as it was, if `src` does not hold all of it.
pub fn split_length_prefixed(src: &mut Shared) -> (r: Option<Shared>)
    ensures
        match spec_split_length_prefixed(old(src)@) {
            Some(raw) => r matches Some(s) && s@ == raw && final(src)@ == old(src)@.skip(raw.len() as int),
            None => r is None && final(src)@ == old(src)@,
        },
{
    if src.len() < 2 {
        return None;
    }
    let s = src.as_slice();
    let len = (s[0] as usize) * 256 + (s[1] as usize);
    if src.len() < 2 + len {
        return None;
    }
    Some(src.split_to(2 + len))
}

/// The lower-case hexadecimal digit for `d`, which is below 16.
pub open spec fn hex_digit(d: u8) -> u8 {
    if d < 10 {
        (0x30 + d) as u8
    } else {
        (0x61 + d - 10) as u8
    }
}

/// How byte `b` is shown inside a byte string literal: printable ASCII as itself, and the
/// rest as the escapes `\n`, `\r`, `\t`, `\\`, `\"`, `\0` or `\x` and two hexadecimal digits.
pub open spec fn escaped_byte(b: u8) -> Seq<u8> {
    if b == 0x0A {
        seq![0x5Cu8, 0x6Eu8]
    } else if b == 0x0D {
        seq![0x5Cu8, 0x72u8]
    } else if b == 0x09 {
        seq![0x5Cu8, 0x74u8]
    } else if b == 0x5C || b == 0x22 {
        seq![0x5Cu8, b]
    } else if b == 0 {
        seq![0x5Cu8, 0x30u8]
    } else if 0x20 <= b < 0x7F {
        seq![b]
    } else {
        seq![0x5Cu8, 0x78u8, hex_digit(b / 16), hex_digit(b % 16)]
    }
}

/// The bytes of `s`, each shown as in a byte string literal.
pub open spec fn escaped_bytes(s: Seq<u8>) -> Seq<u8>
    decreases s.len(),
{
    if s.len() == 0 {
        Seq::empty()
    } else {
        escaped_bytes(s.drop_last()) + escaped_byte(s.last())
    }
}

/// `BinaryData(SharedImpl(b"`, which opens the text of binary data.
pub open spec fn display_prefix() -> Seq<u8> {
    seq![
        0x42u8, 0x69u8, 0x6Eu8, 0x61u8, 0x72u8, 0x79u8, 0x44u8, 0x61u8, 0x74u8, 0x61u8, 0x28u8,
        0x53u8, 0x68u8, 0x61u8, 0x72u8, 0x65u8, 0x64u8, 0x49u8, 0x6Du8, 0x70u8, 0x6Cu8, 0x28u8,
        0x62u8, 0x22u8,
    ]
}

/// `"))`, which closes the text of binary data.
pub open spec fn display_suffix() -> Seq<u8> {
    seq![0x22u8, 0x29u8, 0x29u8]
}

/// The text of binary data holding `raw`, length prefix included.
pub open spec fn spec_display(raw: Seq<u8>) -> Seq<u8> {
    display_prefix() + escaped_bytes(raw) + display_suffix()
}

/// Appends to `out` how `b` is shown inside a byte string literal.
fn push_escaped(out: &mut Vec<u8>, b: u8)
    ensures
        final(out)@ == old(out)@ + escaped_byte(b),
{
    if b == 0x0A {
        out.push(0x5C);
        out.push(0x6E);
    } else if b == 0x0D {
        out.push(0x5C);
        out.push(0x72);
    } else if b == 0x09 {
        out.push(0x5C);
        out.push(0x74);
    } else if b == 0x5C || b == 0x22 {
        out.push(0x5C);
        out.push(b);
    } else if b == 0 {
        out.push(0x5C);
        out.push(0x30);
    } else if 0x20 <= b && b < 0x7F {
        out.push(b);
    } else {
        let hi = b / 16;
        let lo = b % 16;
        out.push(0x5C);
        out.push(0x78);
        out.push(if hi < 10 { 0x30 + hi } else { 0x61 + hi - 10 });
        out.push(if lo < 10 { 0x30 + lo } else { 0x61 + lo - 10 });
    }
    proof {
        assert(final(out)@ =~= old(out)@ + escaped_byte(b));
    }
}

/// Binary data: bytes prefixed with their two-byte big-endian length.
#[derive(Debug, PartialEq, Eq)]
pub struct BinaryData(Shared);

impl BinaryData {
    /// Every `BinaryData` holds a length-prefixed item.
    #[verifier::type_invariant]
    pub open spec fn inv(self) -> bool {
        is_length_prefixed(self@)
    }
}

impl View for BinaryData {
    /// The length prefix followed by the data.
    type V = Seq<u8>;

    closed spec fn view(&self) -> Seq<u8> {
        self.0@
    }
}

impl Clone for BinaryData {
    fn clone(&self) -> (r: Self)
        ensures
            r@ == self@,
    {
        proof {
            use_type_invariant(self);
        }
        BinaryData(self.0.clone())
    }
}

/// The length-prefixed encoding of empty binary data.
pub const EMPTY_BINARY_DATA: [u8; 2] = [0, 0];

impl BinaryData {
    /// The text that shows this binary data: its bytes, length prefix included, as a byte string
    /// literal, in `BinaryData(SharedImpl(b"..."))`.
    pub fn to_string(&self) -> (r: String)
        ensures
            vstd::utf8::encode_utf8(r@) == spec_display(self@),
    {
        let raw = self.0.as_slice();
        let mut out: Vec<u8> = Vec::new();
        let prefix: [u8; 24] = [
            0x42, 0x69, 0x6E, 0x61, 0x72, 0x79, 0x44, 0x61, 0x74, 0x61, 0x28, 0x53, 0x68, 0x61,
            0x72, 0x65, 0x64, 0x49, 0x6D, 0x70, 0x6C, 0x28, 0x62, 0x22,
        ];
        out.extend_from_slice(prefix.as_slice());
        proof {
            assert(out@ =~= display_prefix());
        }
        let mut i: usize = 0;
        while i < raw.len()
            invariant
                i <= raw@.len(),
                raw@ == self@,
                out@ == display_prefix() + escaped_bytes(raw@.take(i as int)),
                forall|k: int| 0 <= k < out@.len() ==> #[trigger] out@[k] < 0x80,
            decreases raw@.len() - i,
        {
            let ghost before = out@;
            push_escaped(&mut out, raw[i]);
            proof {
                assert(raw@.take(i + 1).drop_last() =~= raw@.take(i as int));
                assert(raw@.take(i + 1).last() == raw@[i as int]);
                assert(out@ =~= display_prefix() + escaped_bytes(raw@.take(i + 1)));
                assert forall|k: int| 0 <= k < out@.len() implies #[trigger] out@[k] < 0x80 by {
                    if k >= before.len() {
                        assert(out@[k] == escaped_byte(raw@[i as int])[k - before.len()]);
                    }
                }
            }
            i = i + 1;
        }
        out.push(0x22);
        out.push(0x29);
        out.push(0x29);
        proof {
            assert(raw@.take(raw@.len() as int) =~= raw@);
            assert(out@ =~= spec_display(self@));
            assert(vstd::utf8::partial_valid_utf8(out@, 0)) by {
                assert(out@.subrange(0, 0) =~= Seq::<u8>::empty());
            }
            vstd::utf8::partial_valid_utf8_extend_ascii_block(out@, 0, out@.len() as int);
            assert(out@.subrange(0, out@.len() as int) =~= out@);
        }
        match crate::mqtt_proto::byte_str::str_from_utf8(out.as_slice()) {
            Some(s) => s.to_owned(),
            None => String::new(),
        }
    }
}

impl BinaryData {
    /// Copies `s`, prefixed with its length, into `owned`, which must have nothing filled.
    pub fn new(owned: &mut Owned, s: &[u8]) -> (r: Result<Self, buffer_pool::Error>)
        requires
            old(owned)@.0.len() == 0,
            s@.len() <= 65535,
        ensures
            r matches Ok(b) && b@ == length_prefixed(s@),
            final(owned)@.0.len() == 0,
    {
        let len = s.len();
        let _ = owned.reserve(len + 2);
        let prefix = [(len / 256) as u8, (len % 256) as u8];
        owned.put_slice(&prefix);
        owned.put_slice(s);
        let filled_len = owned.filled_len();
        let shared = owned.split_to(filled_len).freeze();
        proof {
            assert(prefix@ =~= buffer_pool::u16_be_bytes(len as u16));
            assert(shared@ =~= length_prefixed(s@));
            lemma_length_prefixed(s@, Seq::empty());
        }
        Ok(BinaryData(shared))
    }

    /// The data, without the length prefix.
    pub open spec fn content(self) -> Seq<u8> {
        self@.skip(2)
    }

    pub fn as_bytes(&self) -> (r: &[u8])
        ensures
            r@ == self.content(),
    {
        proof {
            use_type_invariant(self);
        }
        let s = self.0.as_slice();
        vstd::slice::slice_subrange(s, 2, s.len())
    }

    pub fn len(&self) -> (r: usize)
        ensures
            r == self.content().len(),
    {
        proof {
            use_type_invariant(self);
        }
        self.0.len() - 2
    }

    pub fn is_empty(&self) -> (r: bool)
        ensures
            r == (self.content().len() == 0),
    {
        proof {
            use_type_invariant(self);
        }
        self.0.len() == 2
    }

    /// The length prefix followed by the data.
    pub fn into_shared(self) -> (r: Shared)
        ensures
            r@ == self@,
    {
        self.0
    }

    /// Decodes a `BinaryData` from the start of `src`. Returns `None`, leaving `src` as it was,
    /// if `src` holds only part of it.
    pub fn decode(src: &mut Shared) -> (r: Option<Self>)
        ensures
            match spec_split_length_prefixed(old(src)@) {
                Some(raw) => r matches Some(b) && b@ == raw && final(src)@ == old(src)@.skip(raw.len() as int),
                None => r is None && final(src)@ == old(src)@,
            },
    {
        match split_length_prefixed(src) {
            Some(s) => {
                proof {
                    let raw = s@;
                    assert(raw[0] == old(src)@[0] && raw[1] == old(src)@[1]);
                }
                Some(BinaryData(s))
            },
            None => None,
        }
    }

    /// Converts a `Shared` that holds exactly one binary data into a `BinaryData`.
    pub fn from_shared(src: Shared) -> (r: Result<Self, DecodeError>)
        ensures
            match spec_split_length_prefixed(src@) {
                Some(raw) => if raw.len() == src@.len() {
                    r matches Ok(b) && b@ == raw
                } else {
                    r matches Err(e) && e@ == DecodeErrorView::TrailingGarbage
                },
                None => r matches Err(e) && e@ == DecodeErrorView::IncompletePacket,
            },
    {
        let mut src = src;
        match BinaryData::decode(&mut src) {
            Some(b) => if src.is_empty() {
                Ok(b)
            } else {
                Err(DecodeError::TrailingGarbage)
            },
            None => Err(DecodeError::IncompletePacket),
        }
    }

    /// Appends the length prefix and the data to `dst`.
    pub fn encode<B: BytesAccumulator>(&self, dst: &mut B) -> (r: Result<(), EncodeError>)
        requires
            old(dst).wf(),
            self@.len() <= old(dst).room(),
        ensures
            final(dst).wf(),
            r is Ok,
            final(dst).contents() == old(dst).contents() + self@,
            final(dst).spare() >= old(dst).spare() - self@.len(),
            final(dst).room() == old(dst).room() - self@.len(),
            final(dst).spare() == if old(dst).spare() + self@.len() <= old(dst).room() {
                old(dst).spare()
            } else {
                (old(dst).room() - self@.len()) as nat
            },
    {
        dst.put_shared(self.0.clone());
        Ok(())
    }

    /// Copies this `BinaryData` into a new buffer taken from `owned`.
    pub fn to_shared(&self, owned: &mut Owned) -> (r: Result<Self, buffer_pool::Error>)
        requires
            old(owned)@.0.len() == 0,
        ensures
            r matches Ok(b) && b@ == self@,
            final(owned)@.0.len() == 0,
    {
        proof {
            use_type_invariant(self);
        }
        match self.0.copy_to_shared(owned) {
            Ok(s) => Ok(BinaryData(s)),
            Err(e) => Err(e),
        }
    }
}

/// Builds a `BinaryData` holding `s`.
pub fn binary_data(s: &[u8]) -> (r: BinaryData)
    requires
        s@.len() <= 65535,
    ensures
        r@ == length_prefixed(s@),
{
    let len = s.len();
    let mut v: Vec<u8> = Vec::new();
    v.push((len / 256) as u8);
    v.push((len % 256) as u8);
    v.extend_from_slice(s);
    let shared = Shared::from_vec(v);
    proof {
        assert(shared@ =~= length_prefixed(s@));
        lemma_length_prefixed(s@, Seq::empty());
    }
    BinaryData(shared)
}

} // verus!
