//! UTF-8 encoded strings prefixed with their two-byte big-endian length.
//!
//! Ref: 1.5.4 UTF-8 Encoded String
use vstd::prelude::*;
use vstd::string::StringSliceAdditionalSpecFns;
use vstd::utf8::valid_utf8;

use crate::buffer_pool::{self, BytesAccumulator, Owned, Shared};
use crate::mqtt_proto::binary_data::{
    is_length_prefixed, length_prefixed, lemma_length_prefixed, spec_split_length_prefixed,
    split_length_prefixed,
};
use crate::mqtt_proto::{DecodeError, DecodeErrorView, EncodeError};

verus! {

/// `std::str::from_utf8`: the bytes as a string slice if they are valid UTF-8.
/// As its documentation says, the result is `Ok` exactly when the bytes are valid UTF-8, and the
/// string it returns consists of those bytes.
#[verifier::external_body]
pub(crate) fn str_from_utf8(b: &[u8]) -> (r: Option<&str>)
    ensures
        r is Some <==> valid_utf8(b@),
        r matches Some(s) ==> s.spec_bytes() == b@,
{
    match std::str::from_utf8(b) {
        Ok(s) => Some(s),
        Err(_) => None,
    }
}

/// Splits `s` at byte `i`, which is the end of `s` or an ASCII byte (and so starts a character).
pub fn split_at_ascii(s: &str, i: usize) -> (r: (&str, &str))
    requires
        i <= s.spec_bytes().len(),
        i < s.spec_bytes().len() ==> s.spec_bytes()[i as int] < 128,
    ensures
        r.0.spec_bytes() == s.spec_bytes().take(i as int),
        r.1.spec_bytes() == s.spec_bytes().skip(i as int),
{
    proof {
        let b = s.spec_bytes();
        vstd::utf8::encode_utf8_valid_utf8(s@);
        vstd::utf8::is_char_boundary_start_end_of_seq(b);
        if i < b.len() {
            vstd::utf8::is_char_boundary_iff_not_is_continuation_byte(b, i as int);
        }
    }
    let r = s.split_at(i);
    proof {
        assert(r.0.spec_bytes() =~= s.spec_bytes().take(i as int));
        assert(r.1.spec_bytes() =~= s.spec_bytes().skip(i as int));
    }
    r
}

/// Splits the first byte, which is ASCII, off `s`.
pub fn split_first_ascii(s: &str) -> (r: &str)
    requires
        s.spec_bytes().len() >= 1,
        s.spec_bytes()[0] < 128,
    ensures
        r.spec_bytes() == s.spec_bytes().skip(1),
{
    proof {
        let b = s.spec_bytes();
        vstd::utf8::encode_utf8_valid_utf8(s@);
        reveal_with_fuel(vstd::utf8::is_char_boundary, 2);
        assert(vstd::utf8::is_char_boundary(b, 1));
    }
    let r = s.split_at(1);
    proof {
        assert(r.1.spec_bytes() =~= s.spec_bytes().skip(1));
    }
    r.1
}

/// Whether `raw` is a length-prefixed UTF-8 string.
pub open spec fn is_byte_str(raw: Seq<u8>) -> bool {
    is_length_prefixed(raw) && valid_utf8(raw.skip(2))
}

/// The length-prefixed UTF-8 string at the start of `s`:
/// `Ok(None)` if `s` holds only part of it.
pub open spec fn spec_decode_byte_str(s: Seq<u8>) -> Result<Option<Seq<u8>>, DecodeErrorView> {
    match spec_split_length_prefixed(s) {
        None => Ok(None),
        Some(raw) => if valid_utf8(raw.skip(2)) {
            Ok(Some(raw))
        } else {
            Err(DecodeErrorView::InvalidByteStr("invalid UTF-8"@))
        },
    }
}

/// A length-prefixed UTF-8 string decodes as itself, whatever follows it.
pub proof fn lemma_decode_byte_str_prefix(raw: Seq<u8>, rest: Seq<u8>)
    requires
        is_byte_str(raw),
    ensures
        spec_decode_byte_str(raw + rest) == Ok::<Option<Seq<u8>>, DecodeErrorView>(Some(raw)),
{
    crate::mqtt_proto::binary_data::lemma_is_length_prefixed(raw);
    crate::mqtt_proto::binary_data::lemma_length_prefixed(raw.skip(2), rest);
}

/// A UTF-8 encoded string prefixed with its two-byte big-endian length.
#[derive(Debug, PartialEq, Eq)]
pub struct ByteStr(Shared);

impl ByteStr {
    /// Every `ByteStr` holds a length-prefixed UTF-8 string.
    #[verifier::type_invariant]
    pub open spec fn inv(self) -> bool {
        is_byte_str(self@)
    }
}

impl View for ByteStr {
    /// The length prefix followed by the UTF-8 bytes.
    type V = Seq<u8>;

    closed spec fn view(&self) -> Seq<u8> {
        self.0@
    }
}

impl Clone for ByteStr {
    fn clone(&self) -> (r: Self)
        ensures
            r@ == self@,
    {
        proof {
            use_type_invariant(self);
        }
        ByteStr(self.0.clone())
    }
}

impl ByteStr {
    /// The UTF-8 bytes, without the length prefix.
    pub open spec fn content(self) -> Seq<u8> {
        self@.skip(2)
    }

    /// Builds a `ByteStr` from a `Shared` that holds a length-prefixed UTF-8 string.
    pub fn from_raw(raw: Shared) -> (r: Self)
        requires
            is_byte_str(raw@),
        ensures
            r@ == raw@,
    {
        ByteStr(raw)
    }

    /// Copies `s`, prefixed with its length, into `owned`, which must have nothing filled.
    pub fn new(owned: &mut Owned, s: &str) -> (r: Result<Self, DecodeError>)
        requires
            old(owned)@.0.len() == 0,
        ensures
            if s.spec_bytes().len() > 65535 {
                r matches Err(e) && e@ == DecodeErrorView::InvalidByteStr("string is too long"@)
            } else {
                r matches Ok(b) && b@ == length_prefixed(s.spec_bytes())
            },
            final(owned)@.0.len() == 0,
    {
        let bytes = s.as_bytes();
        if bytes.len() > 65535 {
            return Err(DecodeError::InvalidByteStr("string is too long"));
        }
        let len = bytes.len();
        let _ = owned.reserve(len + 2);
        let prefix = [(len / 256) as u8, (len % 256) as u8];
        owned.put_slice(&prefix);
        owned.put_slice(bytes);
        let filled_len = owned.filled_len();
        let shared = owned.split_to(filled_len).freeze();
        proof {
            assert(prefix@ =~= buffer_pool::u16_be_bytes(len as u16));
            assert(shared@ =~= length_prefixed(bytes@));
            lemma_length_prefixed(bytes@, Seq::empty());
            vstd::utf8::encode_utf8_valid_utf8(s@);
        }
        Ok(ByteStr(shared))
    }

    /// Builds a `ByteStr` holding a copy of `s`.
    pub fn from_str(s: &str) -> (r: Result<Self, DecodeError>)
        ensures
            if s.spec_bytes().len() > 65535 {
                r matches Err(e) && e@ == DecodeErrorView::InvalidByteStr("string is too long"@)
            } else {
                r matches Ok(b) && b@ == length_prefixed(s.spec_bytes())
            },
    {
        let mut owned = Owned::with_capacity(0);
        ByteStr::new(&mut owned, s)
    }

    /// Decodes a `ByteStr` from the start of `src`. Returns `Ok(None)`, leaving `src` as it was,
    /// if `src` holds only part of it.
    pub fn decode(src: &mut Shared) -> (r: Result<Option<Self>, DecodeError>)
        ensures
            match (r, spec_decode_byte_str(old(src)@)) {
                (Ok(None), Ok(None)) => final(src)@ == old(src)@,
                (Ok(Some(b)), Ok(Some(raw))) => b@ == raw && final(src)@ == old(src)@.skip(raw.len() as int),
                (Err(e), Err(se)) => e@ == se && (spec_split_length_prefixed(old(src)@) matches Some(raw)
                    && final(src)@ == old(src)@.skip(raw.len() as int)),
                _ => false,
            },
    {
        match split_length_prefixed(src) {
            None => Ok(None),
            Some(raw) => {
                let bytes = raw.as_slice();
                let content = vstd::slice::slice_subrange(bytes, 2, bytes.len());
                proof {
                    assert(raw@[0] == old(src)@[0] && raw@[1] == old(src)@[1]);
                }
                match str_from_utf8(content) {
                    Some(_) => Ok(Some(ByteStr(raw))),
                    None => Err(DecodeError::InvalidByteStr("invalid UTF-8")),
                }
            },
        }
    }

    /// Appends the length prefix and the string to `dst`.
    pub fn encode<B: BytesAccumulator>(&self, dst: &mut B) -> (r: Result<(), EncodeError>)
        requires
            old(dst).wf(),
            self@.len() <= old(dst).room(),
        ensures
            final(dst).wf(),
            r is Ok,
            final(dst).contents() == old(dst).contents() + self@,
            final(dst).spare() >= old(dst).spare() - self@.len(),
            final(dst).room() == old(dst).room() - self@.len(),
            final(dst).spare() == if old(dst).spare() + self@.len() <= old(dst).room() {
                old(dst).spare()
            } else {
                (old(dst).room() - self@.len()) as nat
            },
    {
        dst.put_shared(self.0.clone());
        Ok(())
    }

    /// The length prefix followed by the UTF-8 bytes.
    pub fn as_raw(&self) -> (r: &[u8])
        ensures
            r@ == self@,
    {
        self.0.as_slice()
    }

    /// The UTF-8 bytes, without the length prefix.
    pub fn as_bytes(&self) -> (r: &[u8])
        ensures
            r@ == self.content(),
    {
        proof {
            use_type_invariant(self);
        }
        let s = self.0.as_slice();
        vstd::slice::slice_subrange(s, 2, s.len())
    }

    /// The string.
    pub fn as_str(&self) -> (r: &str)
        ensures
            r.spec_bytes() == self.content(),
    {
        proof {
            use_type_invariant(self);
        }
        match str_from_utf8(self.as_bytes()) {
            Some(s) => s,
            None => {
                proof {
                    assert(false);
                }
                ""
            },
        }
    }

    /// The string, copied into a `String`.
    pub fn to_string(&self) -> (r: String)
        ensures
            r@ == self.as_str_view(),
    {
        let s = self.as_str();
        proof {
            vstd::utf8::encode_utf8_decode_utf8(s@);
        }
        s.to_owned()
    }

    /// The characters of the string.
    pub open spec fn as_str_view(self) -> Seq<char> {
        vstd::utf8::decode_utf8(self.content())
    }

    /// The number of bytes of the string.
    pub fn len(&self) -> (r: usize)
        ensures
            r == self.content().len(),
    {
        proof {
            use_type_invariant(self);
        }
        self.0.len() - 2
    }

    pub fn is_empty(&self) -> (r: bool)
        ensures
            r == (self.content().len() == 0),
    {
        proof {
            use_type_invariant(self);
        }
        self.0.len() == 2
    }

    /// Copies this `ByteStr` into a new buffer taken from `owned`.
    pub fn to_shared(&self, owned: &mut Owned) -> (r: Result<Self, buffer_pool::Error>)
        requires
            old(owned)@.0.len() == 0,
        ensures
            r matches Ok(b) && b@ == self@,
            final(owned)@.0.len() == 0,
    {
        proof {
            use_type_invariant(self);
        }
        match self.0.copy_to_shared(owned) {
            Ok(s) => Ok(ByteStr(s)),
            Err(e) => Err(e),
        }
    }
}

} // verus!
