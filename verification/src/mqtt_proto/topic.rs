//! Topic names, and the levels that topic names and topic filters consist of.
//!
//! Ref: 4.7 Topic Names and Topic Filters
use vstd::prelude::*;
use vstd::string::StringSliceAdditionalSpecFns;
use vstd::string::StringExecFns;

use crate::buffer_pool::{self, BytesAccumulator, Owned, Shared};
use crate::mqtt_proto::binary_data::{length_prefixed, lemma_length_prefixed, spec_split_length_prefixed};
use crate::mqtt_proto::byte_str::{
    is_byte_str, spec_decode_byte_str, split_at_ascii, split_first_ascii, ByteStr,
};
use crate::mqtt_proto::{
    DecodeError, DecodeErrorView, EncodeError, MULTI_LEVEL_MATCH, SEPARATOR, SINGLE_LEVEL_MATCH,
};

verus! {

/// Whether `b` is one of the wildcards `+` and `#`.
pub open spec fn is_wildcard_byte(b: u8) -> bool {
    b == SINGLE_LEVEL_MATCH || b == MULTI_LEVEL_MATCH
}

/// Whether `s` holds a wildcard.
pub open spec fn has_wildcard(s: Seq<u8>) -> bool {
    exists|i: int| 0 <= i < s.len() && is_wildcard_byte(#[trigger] s[i])
}

/// The outcome of validating `s` as a topic name.
pub open spec fn spec_check_topic(s: Seq<u8>) -> Result<(), DecodeErrorView> {
    if s.len() == 0 {
        Err(DecodeErrorView::EmptyTopic)
    } else if has_wildcard(s) {
        Err(DecodeErrorView::InvalidTopic(vstd::utf8::decode_utf8(s)))
    } else {
        Ok(())
    }
}

/// The levels of `s`: the parts between the separators `/`.
pub open spec fn spec_levels(s: Seq<u8>) -> Seq<Seq<u8>>
    decreases s.len(),
{
    if s.len() == 0 {
        seq![Seq::empty()]
    } else {
        let l = spec_levels(s.drop_last());
        if s.last() == SEPARATOR {
            l.push(Seq::empty())
        } else {
            l.update(l.len() - 1, l.last().push(s.last()))
        }
    }
}

/// The levels `ls` put back together, with a `/` between each two.
pub open spec fn join_levels(ls: Seq<Seq<u8>>) -> Seq<u8>
    decreases ls.len(),
{
    if ls.len() <= 1 {
        if ls.len() == 1 {
            ls[0]
        } else {
            Seq::empty()
        }
    } else {
        join_levels(ls.drop_last()) + seq![SEPARATOR] + ls.last()
    }
}

/// Splitting into levels cuts at every `/` and nowhere else: no level holds a `/`, and the
/// levels joined with a `/` between each two give back the string, empty levels included.
///
/// Ref: 4.7.1.1 Topic level separator
pub proof fn lemma_levels_split_at_separators(s: Seq<u8>)
    ensures
        join_levels(spec_levels(s)) == s,
        forall|i: int, j: int|
            0 <= i < spec_levels(s).len() && 0 <= j < spec_levels(s)[i].len() ==> #[trigger] spec_levels(
                s,
            )[i][j] != SEPARATOR,
        spec_levels(s).len() >= 1,
    decreases s.len(),
{
    if s.len() == 0 {
        assert(join_levels(spec_levels(s)) =~= s);
    } else {
        let l = spec_levels(s.drop_last());
        lemma_levels_split_at_separators(s.drop_last());
        let ls = spec_levels(s);
        if s.last() == SEPARATOR {
            assert(ls.drop_last() =~= l);
            assert(join_levels(ls) =~= join_levels(l) + seq![SEPARATOR]);
            assert(join_levels(ls) =~= s);
        } else {
            let n = l.len() - 1;
            if l.len() == 1 {
                assert(join_levels(ls) =~= s);
            } else {
                assert(ls.drop_last() =~= l.drop_last());
                assert(join_levels(l) == join_levels(l.drop_last()) + seq![SEPARATOR] + l.last());
                assert(join_levels(ls) =~= join_levels(l).push(s.last()));
                assert(join_levels(ls) =~= s);
            }
            assert forall|i: int, j: int|
                0 <= i < ls.len() && 0 <= j < ls[i].len() implies #[trigger] ls[i][j] != SEPARATOR by {
                if i == n && j == ls[i].len() - 1 {
                } else if i == n {
                    assert(ls[i][j] == l[i][j]);
                } else {
                    assert(ls[i] == l[i]);
                }
            }
        }
    }
}

/// There is always at least one level.
pub proof fn lemma_levels_nonempty(s: Seq<u8>)
    ensures
        spec_levels(s).len() >= 1,
    decreases s.len(),
{
    if s.len() > 0 {
        lemma_levels_nonempty(s.drop_last());
    }
}

/// The bytes of a sequence of string slices.
pub open spec fn levels_of(v: Seq<&str>) -> Seq<Seq<u8>> {
    v.map_values(|l: &str| l.spec_bytes())
}

/// Whether `s` holds the single byte `b`.
pub open spec fn is_single(s: Seq<u8>, b: u8) -> bool {
    s.len() == 1 && s[0] == b
}

/// Whether a topic level starts with `$`, which turns off wildcard matching for it.
pub open spec fn starts_with_dollar(s: Seq<u8>) -> bool {
    s.len() > 0 && s[0] == crate::mqtt_proto::DOLLAR_SIGN
}

/// Whether the filter levels `f` match the topic levels `t`.
pub open spec fn spec_match_levels(f: Seq<Seq<u8>>, t: Seq<Seq<u8>>) -> bool
    decreases f.len(),
{
    if f.len() == 0 && t.len() == 0 {
        true
    } else if f.len() == 0 || t.len() == 0 {
        false
    } else if !starts_with_dollar(t[0]) && is_single(f[0], MULTI_LEVEL_MATCH) {
        true
    } else if !starts_with_dollar(t[0]) && is_single(f[0], SINGLE_LEVEL_MATCH) {
        spec_match_levels(f.drop_first(), t.drop_first())
    } else if f[0] != t[0] {
        false
    } else {
        spec_match_levels(f.drop_first(), t.drop_first())
    }
}

/// The characters with a meaning in topic names and filters: `/` separates levels, `+` and `#`
/// are the single-level and multi-level wildcards, and a leading `$` keeps a level out of
/// wildcard matches.
///
/// Ref: 4.7 Topic Names and Topic Filters
pub proof fn lemma_topic_characters()
    ensures
        SEPARATOR == '/' as u8,
        SINGLE_LEVEL_MATCH == '+' as u8,
        MULTI_LEVEL_MATCH == '#' as u8,
        crate::mqtt_proto::DOLLAR_SIGN == '$' as u8,
{
}

/// Whether the filter level `fl` matches the topic level `tl` on its own: the same level, or a `+`
/// against a level that does not start with `$`.
pub open spec fn level_matches(fl: Seq<u8>, tl: Seq<u8>) -> bool {
    fl == tl || (fl.len() == 1 && fl[0] == SINGLE_LEVEL_MATCH && !(tl.len() > 0 && tl[0]
        == crate::mqtt_proto::DOLLAR_SIGN))
}

/// A filter without a `#` level matches a topic exactly when both have the same number of levels
/// and each filter level matches the topic level at its place: a `+` stands for exactly one
/// level.
///
/// Ref: 4.7.1.3 Single-level wildcard
pub proof fn lemma_match_without_multi_level(f: Seq<Seq<u8>>, t: Seq<Seq<u8>>)
    requires
        forall|i: int| 0 <= i < f.len() ==> !(#[trigger] f[i] == seq![MULTI_LEVEL_MATCH]),
    ensures
        spec_match_levels(f, t) <==> (f.len() == t.len() && forall|i: int|
            0 <= i < f.len() ==> #[trigger] level_matches(f[i], t[i])),
    decreases f.len(),
{
    if f.len() > 0 && t.len() > 0 {
        let f1 = f.drop_first();
        let t1 = t.drop_first();
        assert forall|i: int| 0 <= i < f1.len() implies !(#[trigger] f1[i] == seq![MULTI_LEVEL_MATCH]) by {
            assert(f1[i] == f[i + 1]);
        }
        lemma_match_without_multi_level(f1, t1);
        assert(!is_single(f[0], MULTI_LEVEL_MATCH)) by {
            if is_single(f[0], MULTI_LEVEL_MATCH) {
                assert(f[0] =~= seq![MULTI_LEVEL_MATCH]);
            }
        }
        assert(is_single(f[0], SINGLE_LEVEL_MATCH) && !starts_with_dollar(t[0]) ==> level_matches(
            f[0],
            t[0],
        ));
        if f.len() == t.len() && forall|i: int| 0 <= i < f.len() ==> #[trigger] level_matches(f[i], t[i]) {
            assert(level_matches(f[0], t[0]));
            assert forall|i: int| 0 <= i < f1.len() implies #[trigger] level_matches(f1[i], t1[i]) by {
                assert(level_matches(f[i + 1], t[i + 1]));
            }
        }
        if spec_match_levels(f, t) {
            assert(level_matches(f[0], t[0]));
            assert forall|i: int| 0 <= i < f.len() implies #[trigger] level_matches(f[i], t[i]) by {
                if i > 0 {
                    assert(level_matches(f1[i - 1], t1[i - 1]));
                }
            }
        }
    }
}

/// A filter whose only `#` level is its last matches a topic exactly when the topic has at least
/// as many levels as the filter, the filter levels before the `#` each match the topic level at
/// their place, and the topic level under the `#` does not start with `$`: the `#` stands for
/// that level and all that follow.
///
/// Ref: 4.7.1.2 Multi-level wildcard
pub proof fn lemma_match_with_multi_level(f: Seq<Seq<u8>>, t: Seq<Seq<u8>>)
    requires
        f.len() >= 1,
        f.last() == seq![MULTI_LEVEL_MATCH],
        forall|i: int| 0 <= i < f.len() - 1 ==> !(#[trigger] f[i] == seq![MULTI_LEVEL_MATCH]),
    ensures
        spec_match_levels(f, t) <==> {
            &&& t.len() >= f.len()
            &&& forall|i: int| 0 <= i < f.len() - 1 ==> #[trigger] level_matches(f[i], t[i])
            &&& !(t[f.len() - 1].len() > 0 && t[f.len() - 1][0] == crate::mqtt_proto::DOLLAR_SIGN)
        },
    decreases f.len(),
{
    if t.len() > 0 {
        if f.len() == 1 {
            assert(is_single(f[0], MULTI_LEVEL_MATCH));
        } else {
            let f1 = f.drop_first();
            let t1 = t.drop_first();
            assert(f1.last() == f.last());
            assert forall|i: int| 0 <= i < f1.len() - 1 implies !(#[trigger] f1[i] == seq![MULTI_LEVEL_MATCH]) by {
                assert(f1[i] == f[i + 1]);
            }
            lemma_match_with_multi_level(f1, t1);
            assert(!is_single(f[0], MULTI_LEVEL_MATCH)) by {
                if is_single(f[0], MULTI_LEVEL_MATCH) {
                    assert(f[0] =~= seq![MULTI_LEVEL_MATCH]);
                }
            }
            if t.len() >= f.len() && (forall|i: int| 0 <= i < f.len() - 1 ==> #[trigger] level_matches(f[i], t[i])) {
                assert(level_matches(f[0], t[0]));
                assert(t1[f1.len() - 1] == t[f.len() - 1]);
                assert forall|i: int| 0 <= i < f1.len() - 1 implies #[trigger] level_matches(f1[i], t1[i]) by {
                    assert(level_matches(f[i + 1], t[i + 1]));
                }
            }
            if spec_match_levels(f, t) {
                assert(level_matches(f[0], t[0]));
                assert(t1[f1.len() - 1] == t[f.len() - 1]);
                assert forall|i: int| 0 <= i < f.len() - 1 implies #[trigger] level_matches(f[i], t[i]) by {
                    if i > 0 {
                        assert(level_matches(f1[i - 1], t1[i - 1]));
                    }
                }
            }
        }
    }
}

/// Splits `s` into its levels.
pub fn split_levels<'a>(s: &'a str) -> (r: Vec<&'a str>)
    ensures
        levels_of(r@) == spec_levels(s.spec_bytes()),
{
    let bytes = s.as_bytes();
    let mut out: Vec<&str> = Vec::new();
    let mut rest: &str = s;
    let mut start: usize = 0;
    let mut i: usize = 0;
    proof {
        assert(bytes@.take(0) =~= Seq::<u8>::empty());
        assert(levels_of(out@) + seq![bytes@.subrange(0, 0)] =~= spec_levels(bytes@.take(0)));
    }
    while i < bytes.len()
        invariant
            bytes@ == s.spec_bytes(),
            start <= i <= bytes@.len(),
            rest.spec_bytes() == bytes@.skip(start as int),
            levels_of(out@) + seq![bytes@.subrange(start as int, i as int)] == spec_levels(bytes@.take(i as int)),
        decreases bytes@.len() - i,
    {
        let ghost prev = levels_of(out@);
        let ghost old_start = start as int;
        proof {
            lemma_levels_step(bytes@, start as int, i as int, prev);
        }
        if bytes[i] == SEPARATOR {
            proof {
                assert(rest.spec_bytes()[i - start] == bytes@[i as int]);
            }
            let (level, r2) = split_at_ascii(rest, i - start);
            out.push(level);
            proof {
                assert(r2.spec_bytes() =~= bytes@.skip(i as int));
            }
            rest = split_first_ascii(r2);
            start = i + 1;
            proof {
                assert(level.spec_bytes() =~= bytes@.subrange(old_start, i as int));
                assert(levels_of(out@) =~= prev.push(level.spec_bytes()));
                assert(rest.spec_bytes() =~= bytes@.skip(start as int));
                assert(bytes@.subrange(start as int, i + 1) =~= Seq::<u8>::empty());
            }
        }
        i = i + 1;
    }
    let ghost prev = levels_of(out@);
    out.push(rest);
    proof {
        assert(bytes@.take(i as int) =~= bytes@);
        assert(rest.spec_bytes() =~= bytes@.subrange(start as int, i as int));
        assert(levels_of(out@) =~= prev.push(rest.spec_bytes()));
        assert(levels_of(out@) =~= prev + seq![bytes@.subrange(start as int, i as int)]);
    }
    out
}

/// One step of splitting: how the levels of a prefix grow by one byte.
proof fn lemma_levels_step(b: Seq<u8>, start: int, i: int, prev: Seq<Seq<u8>>)
    requires
        0 <= start <= i < b.len(),
        prev + seq![b.subrange(start, i)] == spec_levels(b.take(i)),
    ensures
        b[i] == SEPARATOR ==> spec_levels(b.take(i + 1)) == prev.push(b.subrange(start, i)).push(
            Seq::empty(),
        ),
        b[i] != SEPARATOR ==> spec_levels(b.take(i + 1)) == prev + seq![b.subrange(start, i + 1)],
{
    let t = b.take(i + 1);
    assert(t.drop_last() =~= b.take(i));
    assert(t.last() == b[i]);
    let l = spec_levels(b.take(i));
    if b[i] == SEPARATOR {
        assert(l =~= prev.push(b.subrange(start, i)));
    } else {
        assert(b.subrange(start, i + 1) =~= b.subrange(start, i).push(b[i]));
        assert(l.update(l.len() - 1, l.last().push(b[i])) =~= prev + seq![b.subrange(start, i + 1)]);
    }
}


/// Whether the filter levels `f` match the topic levels `t`.
pub fn match_levels(f: &Vec<&str>, t: &Vec<&str>) -> (r: bool)
    ensures
        r == spec_match_levels(levels_of(f@), levels_of(t@)),
{
    let mut k: usize = 0;
    proof {
        assert(levels_of(f@).skip(0) =~= levels_of(f@));
        assert(levels_of(t@).skip(0) =~= levels_of(t@));
    }
    while k < f.len() || k < t.len()
        invariant
            k <= f@.len() && k <= t@.len(),
            spec_match_levels(levels_of(f@), levels_of(t@)) == spec_match_levels(
                levels_of(f@).skip(k as int),
                levels_of(t@).skip(k as int),
            ),
        decreases f@.len() + t@.len() - 2 * k,
    {
        let ghost fs = levels_of(f@).skip(k as int);
        let ghost ts = levels_of(t@).skip(k as int);
        if k >= f.len() || k >= t.len() {
            return false;
        }
        let fl = f[k].as_bytes();
        let tl = t[k].as_bytes();
        proof {
            assert(fs[0] == fl@);
            assert(ts[0] == tl@);
            assert(fs.drop_first() =~= levels_of(f@).skip(k + 1));
            assert(ts.drop_first() =~= levels_of(t@).skip(k + 1));
        }
        let dollar = tl.len() > 0 && tl[0] == crate::mqtt_proto::DOLLAR_SIGN;
        if !dollar && fl.len() == 1 && fl[0] == MULTI_LEVEL_MATCH {
            return true;
        }
        if !dollar && fl.len() == 1 && fl[0] == SINGLE_LEVEL_MATCH {
            k = k + 1;
            continue;
        }
        if !buffer_pool::bytes_eq(fl, tl) {
            return false;
        }
        k = k + 1;
    }
    proof {
        assert(levels_of(f@).skip(k as int).len() == 0);
        assert(levels_of(t@).skip(k as int).len() == 0);
    }
    true
}

/// A topic name: a non-empty UTF-8 string without wildcards.
#[derive(Debug, PartialEq, Eq)]
pub struct Topic(ByteStr);

impl Topic {
    /// Every `Topic` holds a valid topic name.
    #[verifier::type_invariant]
    pub open spec fn inv(self) -> bool {
        is_byte_str(self@) && spec_check_topic(self@.skip(2)) is Ok
    }
}

impl View for Topic {
    /// The length prefix followed by the UTF-8 bytes.
    type V = Seq<u8>;

    closed spec fn view(&self) -> Seq<u8> {
        self.0@
    }
}

impl Clone for Topic {
    fn clone(&self) -> (r: Self)
        ensures
            r@ == self@,
    {
        proof {
            use_type_invariant(self);
        }
        Topic(self.0.clone())
    }
}

/// Whether `s` holds a wildcard.
pub fn find_wildcard(s: &[u8]) -> (r: bool)
    ensures
        r == has_wildcard(s@),
{
    let mut i: usize = 0;
    while i < s.len()
        invariant
            i <= s@.len(),
            forall|j: int| 0 <= j < i ==> !is_wildcard_byte(#[trigger] s@[j]),
        decreases s@.len() - i,
    {
        if s[i] == SINGLE_LEVEL_MATCH || s[i] == MULTI_LEVEL_MATCH {
            assert(is_wildcard_byte(s@[i as int]));
            return true;
        }
        i = i + 1;
    }
    false
}

/// The decoding of a topic name at the start of `s`: `Ok(None)` if `s` holds only part of it.
pub open spec fn spec_decode_topic(s: Seq<u8>) -> Result<Option<Seq<u8>>, DecodeErrorView> {
    match spec_decode_byte_str(s) {
        Ok(None) => Ok(None),
        Ok(Some(raw)) => match spec_check_topic(raw.skip(2)) {
            Ok(()) => Ok(Some(raw)),
            Err(e) => Err(e),
        },
        Err(e) => Err(e),
    }
}

impl Topic {
    /// The UTF-8 bytes of the topic name.
    pub open spec fn content(self) -> Seq<u8> {
        self@.skip(2)
    }

    /// Validates `inner` as a topic name.
    pub fn new(inner: ByteStr) -> (r: Result<Self, DecodeError>)
        ensures
            match spec_check_topic(inner.content()) {
                Ok(()) => r matches Ok(t) && t@ == inner@,
                Err(e) => r matches Err(re) && re@ == e,
            },
    {
        proof {
            use_type_invariant(&inner);
        }
        let bytes = inner.as_bytes();
        if bytes.len() == 0 {
            return Err(DecodeError::EmptyTopic);
        }
        if find_wildcard(bytes) {
            return Err(DecodeError::InvalidTopic(inner.to_string()));
        }
        Ok(Topic(inner))
    }

    /// The levels of the topic name.
    pub fn iter(&self) -> (r: Vec<&str>)
        ensures
            levels_of(r@) == spec_levels(self.content()),
    {
        split_levels(self.as_str())
    }

    pub fn as_str(&self) -> (r: &str)
        ensures
            r.spec_bytes() == self.content(),
    {
        self.0.as_str()
    }

    pub fn as_bytes(&self) -> (r: &[u8])
        ensures
            r@ == self.content(),
    {
        self.0.as_bytes()
    }

    /// The topic name as a `String`.
    pub fn to_string(&self) -> (r: String)
        ensures
            r@ == vstd::utf8::decode_utf8(self.content()),
    {
        self.0.to_string()
    }

    /// A copy of this topic name that does not share its buffer.
    pub fn to_owned(&self) -> (r: Self)
        ensures
            r@ == self@,
    {
        proof {
            use_type_invariant(self);
        }
        let raw = Shared::copy_from_slice(self.0.as_raw());
        Topic(ByteStr::from_raw(raw))
    }

    /// Copies `s` into `owned`, which must have nothing filled, and validates it as a topic name.
    pub fn new_shared(owned: &mut Owned, s: &str) -> (r: Result<Self, DecodeError>)
        requires
            old(owned)@.0.len() == 0,
        ensures
            s.spec_bytes().len() > 65535 ==> r is Err,
            s.spec_bytes().len() <= 65535 ==> match spec_check_topic(s.spec_bytes()) {
                Ok(()) => r matches Ok(t) && t@ == length_prefixed(s.spec_bytes()),
                Err(e) => r matches Err(re) && re@ == e,
            },
    {
        let b = ByteStr::new(owned, s)?;
        proof {
            if s.spec_bytes().len() <= 65535 {
                lemma_length_prefixed(s.spec_bytes(), Seq::empty());
            }
        }
        Topic::new(b)
    }

    /// Decodes a topic name from the start of `src`. Returns `Ok(None)`, leaving `src` as it was,
    /// if `src` holds only part of it.
    pub fn decode(src: &mut Shared) -> (r: Result<Option<Self>, DecodeError>)
        ensures
            match (r, spec_decode_topic(old(src)@)) {
                (Ok(None), Ok(None)) => final(src)@ == old(src)@,
                (Ok(Some(t)), Ok(Some(raw))) => t@ == raw && final(src)@ == old(src)@.skip(raw.len() as int),
                (Err(e), Err(se)) => e@ == se && (spec_split_length_prefixed(old(src)@) matches Some(raw)
                    && final(src)@ == old(src)@.skip(raw.len() as int)),
                _ => false,
            },
    {
        match ByteStr::decode(src) {
            Ok(Some(s)) => match Topic::new(s) {
                Ok(t) => Ok(Some(t)),
                Err(e) => Err(e),
            },
            Ok(None) => Ok(None),
            Err(e) => Err(e),
        }
    }

    /// Appends the length prefix and the topic name to `dst`.
    pub fn encode<B: BytesAccumulator>(&self, dst: &mut B) -> (r: Result<(), EncodeError>)
        requires
            old(dst).wf(),
            self@.len() <= old(dst).room(),
        ensures
            final(dst).wf(),
            r is Ok,
            final(dst).contents() == old(dst).contents() + self@,
            final(dst).spare() >= old(dst).spare() - self@.len(),
            final(dst).room() == old(dst).room() - self@.len(),
            final(dst).spare() == if old(dst).spare() + self@.len() <= old(dst).room() {
                old(dst).spare()
            } else {
                (old(dst).room() - self@.len()) as nat
            },
    {
        self.0.encode(dst)
    }

    pub fn into_inner(self) -> (r: ByteStr)
        ensures
            r@ == self@,
    {
        self.0
    }

    /// Copies this topic name into a new buffer taken from `owned`.
    pub fn to_shared(&self, owned: &mut Owned) -> (r: Result<Self, buffer_pool::Error>)
        requires
            old(owned)@.0.len() == 0,
        ensures
            r matches Ok(t) && t@ == self@,
            final(owned)@.0.len() == 0,
    {
        proof {
            use_type_invariant(self);
        }
        match self.0.to_shared(owned) {
            Ok(s) => Ok(Topic(s)),
            Err(e) => Err(e),
        }
    }

    /// The topic name made of `first` followed by `second`; `first` must not hold a wildcard.
    /// The name is returned as a `String`: it may be longer than the 65535 bytes that a `Topic`
    /// can hold on the wire.
    pub fn combine(first: &str, second: &Topic) -> (r: Result<String, DecodeError>)
        ensures
            has_wildcard(first.spec_bytes()) ==> (r matches Err(e) && e@ == DecodeErrorView::InvalidTopic(first@)),
            !has_wildcard(first.spec_bytes()) ==> (r matches Ok(s)
                && s@ == first@ + vstd::utf8::decode_utf8(second.content())),
    {
        let f = first.as_bytes();
        if find_wildcard(f) {
            return Err(DecodeError::InvalidTopic(first.to_owned()));
        }
        let mut s = first.to_owned();
        let tail = second.to_string();
        s.append(tail.as_str());
        Ok(s)
    }
}

/// Builds a topic name holding `s`, which must be a valid topic name.
pub fn topic(s: &str) -> (r: Topic)
    requires
        s.spec_bytes().len() <= 65535,
        spec_check_topic(s.spec_bytes()) is Ok,
    ensures
        r@ == length_prefixed(s.spec_bytes()),
{
    let mut owned = Owned::with_capacity(0);
    let r = Topic::new_shared(&mut owned, s);
    r.unwrap()
}

/// Builds a topic name holding `s`, which must be a valid topic name.
pub fn topic_str(s: &str) -> (r: Topic)
    requires
        s.spec_bytes().len() <= 65535,
        spec_check_topic(s.spec_bytes()) is Ok,
    ensures
        r@ == length_prefixed(s.spec_bytes()),
{
    topic(s)
}

} // verus!
