//! Topic filters, including shared subscriptions (`$share/{group}/{filter}`).
//!
//! Ref: 4.7 Topic Names and Topic Filters, 4.8.2 Shared Subscriptions
use vstd::prelude::*;
use vstd::string::StringSliceAdditionalSpecFns;

use crate::buffer_pool::{self, BytesAccumulator, Owned, Shared};
use crate::mqtt_proto::binary_data::{length_prefixed, lemma_length_prefixed, spec_split_length_prefixed};
use crate::mqtt_proto::byte_str::{
    is_byte_str, spec_decode_byte_str, split_at_ascii, split_first_ascii, ByteStr,
};
use crate::mqtt_proto::topic::{
    has_wildcard, is_single, lemma_levels_nonempty, is_wildcard_byte, spec_levels, spec_match_levels, levels_of, find_wildcard,
    split_levels, match_levels, Topic,
};
use crate::mqtt_proto::{
    DecodeError, DecodeErrorView, EncodeError, DOLLAR_SIGN, MULTI_LEVEL_MATCH, SEPARATOR,
    SINGLE_LEVEL_MATCH,
};

verus! {

/// The bytes of the prefix `$share/` that starts a shared subscription.
pub open spec fn shared_prefix() -> Seq<u8> {
    seq![0x24u8, 0x73u8, 0x68u8, 0x61u8, 0x72u8, 0x65u8, 0x2Fu8]
}

/// The length of `$share/`.
pub const SHARED_SUBSCRIPTION_PREFIX_LEN: usize = 7;

/// Whether `s` starts with `$share/`.
pub open spec fn has_shared_prefix(s: Seq<u8>) -> bool {
    s.len() >= 7 && s.take(7) == shared_prefix()
}

/// Whether `b` ends the group name of a shared subscription: a separator or a wildcard.
pub open spec fn ends_group(b: u8) -> bool {
    b == SEPARATOR || is_wildcard_byte(b)
}

/// The index of the first byte of `s` that ends a group name, or the length of `s` if none does.
pub open spec fn group_end(s: Seq<u8>) -> nat
    decreases s.len(),
{
    if s.len() == 0 {
        0
    } else if ends_group(s[0]) {
        0
    } else {
        1 + group_end(s.drop_first())
    }
}

/// The state of the topic filter validator after some bytes.
#[derive(Clone, Copy, Debug, PartialEq, Eq, Structural)]
pub enum ParseState {
    Separator,
    Literal,
    Single,
    Multiple,
}

/// One step of the topic filter validator: `None` if `b` cannot follow state `st`.
///
/// Ref: [MQTT-4.7.1-1], [MQTT-4.7.1-2]
pub open spec fn filter_step(st: ParseState, b: u8) -> Option<ParseState> {
    match st {
        ParseState::Multiple => None,
        _ => if b == SEPARATOR {
            Some(ParseState::Separator)
        } else {
            match st {
                ParseState::Separator => if b == SINGLE_LEVEL_MATCH {
                    Some(ParseState::Single)
                } else if b == MULTI_LEVEL_MATCH {
                    Some(ParseState::Multiple)
                } else {
                    Some(ParseState::Literal)
                },
                ParseState::Literal => if is_wildcard_byte(b) {
                    None
                } else {
                    Some(ParseState::Literal)
                },
                _ => None,
            }
        },
    }
}

/// The state of the topic filter validator after all of `s`, or `None` if `s` was rejected.
pub open spec fn filter_state(s: Seq<u8>) -> Option<ParseState>
    decreases s.len(),
{
    if s.len() == 0 {
        Some(ParseState::Separator)
    } else {
        match filter_state(s.drop_last()) {
            Some(st) => filter_step(st, s.last()),
            None => None,
        }
    }
}

/// Whether `l` may stand as a level of a topic filter: `+`, `#` if it is the last level, or a
/// level without wildcards.
pub open spec fn level_allowed(l: Seq<u8>, last: bool) -> bool {
    is_single(l, SINGLE_LEVEL_MATCH) || (last && is_single(l, MULTI_LEVEL_MATCH)) || !has_wildcard(l)
}

/// Whether every level of `ls` may stand where it stands.
pub open spec fn levels_allowed(ls: Seq<Seq<u8>>) -> bool {
    forall|i: int| 0 <= i < ls.len() ==> level_allowed(#[trigger] ls[i], i == ls.len() - 1)
}

/// The state the validator is in after a last level `l`, all earlier levels being allowed.
spec fn level_state(l: Seq<u8>) -> Option<ParseState> {
    if l.len() == 0 {
        Some(ParseState::Separator)
    } else if is_single(l, SINGLE_LEVEL_MATCH) {
        Some(ParseState::Single)
    } else if is_single(l, MULTI_LEVEL_MATCH) {
        Some(ParseState::Multiple)
    } else if !has_wildcard(l) {
        Some(ParseState::Literal)
    } else {
        None
    }
}

/// Whether the levels of `ls` before the last are allowed.
spec fn earlier_levels_allowed(ls: Seq<Seq<u8>>) -> bool {
    forall|i: int| 0 <= i < ls.len() - 1 ==> level_allowed(#[trigger] ls[i], false)
}

proof fn lemma_has_wildcard_push(l: Seq<u8>, b: u8)
    ensures
        has_wildcard(l.push(b)) == (has_wildcard(l) || is_wildcard_byte(b)),
{
    let lb = l.push(b);
    if has_wildcard(l) {
        let i = choose|i: int| 0 <= i < l.len() && is_wildcard_byte(#[trigger] l[i]);
        assert(lb[i] == l[i]);
    }
    if is_wildcard_byte(b) {
        assert(lb[l.len() as int] == b);
    }
    if has_wildcard(lb) {
        let i = choose|i: int| 0 <= i < lb.len() && is_wildcard_byte(#[trigger] lb[i]);
        if i < l.len() {
            assert(l[i] == lb[i]);
        }
    }
}

/// The validator's state follows the levels: it fails exactly when a level before the last is not
/// allowed there, or the last level is neither `+`, `#` nor free of wildcards.
proof fn lemma_filter_state_levels(s: Seq<u8>)
    ensures
        filter_state(s) == if earlier_levels_allowed(spec_levels(s)) {
            level_state(spec_levels(s).last())
        } else {
            None
        },
    decreases s.len(),
{
    if s.len() == 0 {
        assert(spec_levels(s) == seq![Seq::<u8>::empty()]);
    } else {
        let s1 = s.drop_last();
        let b = s.last();
        lemma_filter_state_levels(s1);
        lemma_levels_nonempty(s1);
        let ls1 = spec_levels(s1);
        let l1 = ls1.last();
        let ls = spec_levels(s);
        if b == SEPARATOR {
            assert(ls == ls1.push(Seq::<u8>::empty()));
            assert(earlier_levels_allowed(ls) == (earlier_levels_allowed(ls1) && level_allowed(l1, false))) by {
                if earlier_levels_allowed(ls1) && level_allowed(l1, false) {
                    assert forall|i: int| 0 <= i < ls.len() - 1 implies level_allowed(#[trigger] ls[i], false) by {
                        if i < ls1.len() - 1 {
                            assert(ls[i] == ls1[i]);
                        } else {
                            assert(ls[i] == l1);
                        }
                    }
                }
                if earlier_levels_allowed(ls) {
                    assert forall|i: int| 0 <= i < ls1.len() - 1 implies level_allowed(#[trigger] ls1[i], false) by {
                        assert(ls[i] == ls1[i]);
                    }
                    assert(ls[ls1.len() - 1] == l1);
                }
            }
            assert(ls.last() == Seq::<u8>::empty());
        } else {
            let l = l1.push(b);
            assert(ls == ls1.update(ls1.len() - 1, l));
            assert(earlier_levels_allowed(ls) == earlier_levels_allowed(ls1)) by {
                if earlier_levels_allowed(ls1) {
                    assert forall|i: int| 0 <= i < ls.len() - 1 implies level_allowed(#[trigger] ls[i], false) by {
                        assert(ls[i] == ls1[i]);
                    }
                }
                if earlier_levels_allowed(ls) {
                    assert forall|i: int| 0 <= i < ls1.len() - 1 implies level_allowed(#[trigger] ls1[i], false) by {
                        assert(ls[i] == ls1[i]);
                    }
                }
            }
            assert(ls.last() == l);
            lemma_has_wildcard_push(l1, b);
            if l1.len() == 0 {
                assert(l =~= seq![b]);
                assert(l[0] == b);
                if !is_wildcard_byte(b) {
                    assert(!has_wildcard(l));
                }
            } else {
                assert(l.len() >= 2);
                if is_single(l1, SINGLE_LEVEL_MATCH) || is_single(l1, MULTI_LEVEL_MATCH) {
                    assert(is_wildcard_byte(l1[0]));
                    assert(has_wildcard(l1));
                }
            }
        }
    }
}

/// A topic filter is valid level by level: each of its levels is `+`, `#` as the last level, or
/// a level without wildcards.
pub proof fn lemma_filter_levels(s: Seq<u8>)
    ensures
        (filter_state(s) is Some) <==> levels_allowed(spec_levels(s)),
{
    lemma_filter_state_levels(s);
    lemma_levels_nonempty(s);
    let ls = spec_levels(s);
    let l = ls.last();
    if levels_allowed(ls) {
        assert(level_allowed(ls[ls.len() - 1], true));
        assert forall|i: int| 0 <= i < ls.len() - 1 implies level_allowed(#[trigger] ls[i], false) by {
            assert(level_allowed(ls[i], i == ls.len() - 1));
        }
        if l.len() > 0 && !is_single(l, SINGLE_LEVEL_MATCH) && !is_single(l, MULTI_LEVEL_MATCH) {
            assert(!has_wildcard(l));
        }
    }
    if filter_state(s) is Some {
        assert(earlier_levels_allowed(ls));
        assert forall|i: int| 0 <= i < ls.len() implies level_allowed(#[trigger] ls[i], i == ls.len() - 1) by {
            if i == ls.len() - 1 {
                if l.len() == 0 {
                    assert(!has_wildcard(l));
                }
            }
        }
    }
}

/// Validating a topic filter, level by level: a filter that is not a shared subscription is
/// valid exactly when it is not empty and its levels are allowed; a shared subscription
/// `$share/{group}/{filter}` exactly when the group is not empty and holds no wildcard, and the
/// filter is not empty and its levels are allowed.
pub proof fn lemma_filter_new_levels(s: Seq<u8>)
    ensures
        !has_shared_prefix(s) ==> ((spec_filter_new(s) is Ok) <==> (s.len() > 0 && levels_allowed(
            spec_levels(s),
        ))),
        has_shared_prefix(s) ==> ({
            let g = s.skip(7);
            let e = group_end(g);
            let f = s.skip(7 + e + 1 as int);
            (spec_filter_new(s) is Ok) <==> (0 < e < g.len() && g[e as int] == SEPARATOR && f.len() > 0
                && levels_allowed(spec_levels(f)))
        }),
{
    lemma_filter_levels(s);
    if has_shared_prefix(s) {
        assert(s[0] == s.take(7)[0]);
        let g = s.skip(7);
        lemma_group_end(g);
        lemma_filter_levels(s.skip(7 + group_end(g) + 1 as int));
    }
}

/// The kind of a topic filter.
#[derive(Clone, Copy, Debug, PartialEq, Eq, Hash, Structural)]
pub enum FilterKind {
    /// A filter that does not start with `$`.
    Regular,
    /// A filter that starts with `$` but is not a shared subscription.
    Dollar,
    /// A shared subscription; the field is the index of the separator between the group name and
    /// the filter.
    Shared { index_group_name_and_filter: usize },
}

/// The outcome of validating `s` as a topic filter: its kind, or the error.
pub open spec fn spec_filter_new(s: Seq<u8>) -> Result<FilterKind, DecodeErrorView> {
    if s.len() == 0 {
        Err(DecodeErrorView::EmptyFilter)
    } else if s[0] == DOLLAR_SIGN && has_shared_prefix(s) {
        let g = s.skip(7);
        let e = group_end(g);
        if e == 0 || e == g.len() || is_wildcard_byte(g[e as int]) {
            Err(DecodeErrorView::InvalidFilter(vstd::utf8::decode_utf8(s)))
        } else {
            let idx = 7 + e;
            let f = s.skip(idx + 1 as int);
            if f.len() == 0 {
                Err(DecodeErrorView::EmptyFilter)
            } else if filter_state(f) is None {
                Err(DecodeErrorView::InvalidFilter(vstd::utf8::decode_utf8(f)))
            } else {
                Ok(FilterKind::Shared { index_group_name_and_filter: idx as usize })
            }
        }
    } else if filter_state(s) is None {
        Err(DecodeErrorView::InvalidFilter(vstd::utf8::decode_utf8(s)))
    } else if s[0] == DOLLAR_SIGN {
        Ok(FilterKind::Dollar)
    } else {
        Ok(FilterKind::Regular)
    }
}

/// The part of the filter `s` of kind `k` that is matched against topic names: for a shared
/// subscription, what follows the group name.
pub open spec fn matched_part(s: Seq<u8>, k: FilterKind) -> Seq<u8> {
    match k {
        FilterKind::Shared { index_group_name_and_filter } => s.skip(index_group_name_and_filter + 1 as int),
        _ => s,
    }
}

/// Whether the topic filter `s` of kind `k` matches the topic name `t`.
pub open spec fn spec_matches_topic(s: Seq<u8>, k: FilterKind, t: Seq<u8>) -> bool {
    spec_match_levels(spec_levels(matched_part(s, k)), spec_levels(t))
}

/// Facts about a valid shared subscription filter.
pub proof fn lemma_shared_filter(s: Seq<u8>, idx: usize)
    requires
        s.len() <= 65535,
        spec_filter_new(s) == Ok::<FilterKind, DecodeErrorView>(
            FilterKind::Shared { index_group_name_and_filter: idx },
        ),
    ensures
        has_shared_prefix(s),
        7 < idx < s.len() - 1,
        s[idx as int] == SEPARATOR,
        forall|j: int| 7 <= j < idx ==> !ends_group(#[trigger] s[j]),
{
    let g = s.skip(7);
    lemma_group_end(g);
    assert(idx == 7 + group_end(g));
    assert forall|j: int| 7 <= j < idx implies !ends_group(#[trigger] s[j]) by {
        assert(s[j] == g[j - 7]);
    }
    assert(s[idx as int] == g[idx - 7]);
}

/// `group_end(s)` is the index of the first byte that ends a group name.
pub proof fn lemma_group_end(s: Seq<u8>)
    ensures
        group_end(s) <= s.len(),
        forall|j: int| 0 <= j < group_end(s) ==> !ends_group(#[trigger] s[j]),
        group_end(s) < s.len() ==> ends_group(s[group_end(s) as int]),
    decreases s.len(),
{
    if s.len() > 0 && !ends_group(s[0]) {
        let t = s.drop_first();
        lemma_group_end(t);
        assert forall|j: int| 0 <= j < group_end(s) implies !ends_group(#[trigger] s[j]) by {
            if j > 0 {
                assert(s[j] == t[j - 1]);
            }
        }
        if group_end(s) < s.len() {
            assert(s[group_end(s) as int] == t[group_end(t) as int]);
        }
    }
}

/// Finds, from index `start` of `b`, the first byte that ends a group name.
fn scan_group(b: &[u8], start: usize) -> (r: usize)
    requires
        start <= b@.len(),
    ensures
        r == start + group_end(b@.skip(start as int)),
{
    let mut i = start;
    proof {
        assert(b@.skip(start as int) =~= b@.skip(i as int));
    }
    while i < b.len()
        invariant
            start <= i <= b@.len(),
            group_end(b@.skip(start as int)) == (i - start) + group_end(b@.skip(i as int)),
        decreases b@.len() - i,
    {
        let c = b[i];
        if c == SEPARATOR || c == SINGLE_LEVEL_MATCH || c == MULTI_LEVEL_MATCH {
            proof {
                assert(b@.skip(i as int)[0] == c);
            }
            return i;
        }
        proof {
            let t = b@.skip(i as int);
            assert(t[0] == c);
            assert(t.drop_first() =~= b@.skip(i + 1));
        }
        i = i + 1;
    }
    proof {
        assert(b@.skip(i as int).len() == 0);
    }
    i
}

/// Runs the topic filter validator over `b`.
fn check_filter_levels(b: &[u8]) -> (r: bool)
    ensures
        r == (filter_state(b@) is Some),
{
    let mut st = ParseState::Separator;
    let mut i: usize = 0;
    proof {
        assert(b@.take(0) =~= Seq::<u8>::empty());
    }
    while i < b.len()
        invariant
            i <= b@.len(),
            filter_state(b@.take(i as int)) == Some(st),
        decreases b@.len() - i,
    {
        let c = b[i];
        proof {
            assert(b@.take(i + 1).drop_last() =~= b@.take(i as int));
            assert(b@.take(i + 1).last() == c);
        }
        let next = match st {
            ParseState::Multiple => None,
            _ => if c == SEPARATOR {
                Some(ParseState::Separator)
            } else {
                match st {
                    ParseState::Separator => if c == SINGLE_LEVEL_MATCH {
                        Some(ParseState::Single)
                    } else if c == MULTI_LEVEL_MATCH {
                        Some(ParseState::Multiple)
                    } else {
                        Some(ParseState::Literal)
                    },
                    ParseState::Literal => if c == SINGLE_LEVEL_MATCH || c == MULTI_LEVEL_MATCH {
                        None
                    } else {
                        Some(ParseState::Literal)
                    },
                    _ => None,
                }
            },
        };
        match next {
            Some(n) => {
                st = n;
            },
            None => {
                proof {
                    lemma_filter_state_rejects(b@, i as int);
                }
                return false;
            },
        }
        i = i + 1;
    }
    proof {
        assert(b@.take(i as int) =~= b@);
    }
    true
}

/// Once the validator rejects a prefix, it rejects the whole sequence.
proof fn lemma_filter_state_rejects(s: Seq<u8>, i: int)
    requires
        0 <= i < s.len(),
        filter_state(s.take(i + 1)) is None,
    ensures
        filter_state(s) is None,
    decreases s.len() - i,
{
    if i + 1 < s.len() {
        assert(s.take(i + 2).drop_last() =~= s.take(i + 1));
        lemma_filter_state_rejects(s, i + 1);
    } else {
        assert(s.take(i + 1) =~= s);
    }
}

/// Whether `b` starts with `$share/`.
fn starts_with_shared_prefix(b: &[u8]) -> (r: bool)
    ensures
        r == has_shared_prefix(b@),
{
    if b.len() < 7 {
        return false;
    }
    let r = b[0] == 0x24 && b[1] == 0x73 && b[2] == 0x68 && b[3] == 0x61 && b[4] == 0x72 && b[5]
        == 0x65 && b[6] == 0x2F;
    proof {
        if r {
            assert(b@.take(7) =~= shared_prefix());
        } else {
            if b@.take(7) == shared_prefix() {
                assert(b@[0] == b@.take(7)[0]);
                assert(b@[1] == b@.take(7)[1]);
                assert(b@[2] == b@.take(7)[2]);
                assert(b@[3] == b@.take(7)[3]);
                assert(b@[4] == b@.take(7)[4]);
                assert(b@[5] == b@.take(7)[5]);
                assert(b@[6] == b@.take(7)[6]);
            }
        }
    }
    r
}

/// Drops the first `n` bytes of `s`, which are all ASCII.
fn skip_ascii(s: &str, n: usize) -> (r: &str)
    requires
        n <= s.spec_bytes().len(),
        forall|j: int| 0 <= j < n ==> #[trigger] s.spec_bytes()[j] < 128,
    ensures
        r.spec_bytes() == s.spec_bytes().skip(n as int),
{
    let mut r = s;
    let mut k: usize = 0;
    proof {
        assert(s.spec_bytes().skip(0) =~= s.spec_bytes());
    }
    while k < n
        invariant
            k <= n <= s.spec_bytes().len(),
            forall|j: int| 0 <= j < n ==> #[trigger] s.spec_bytes()[j] < 128,
            r.spec_bytes() == s.spec_bytes().skip(k as int),
        decreases n - k,
    {
        proof {
            assert(r.spec_bytes()[0] == s.spec_bytes()[k as int]);
        }
        let r2 = split_first_ascii(r);
        proof {
            assert(r2.spec_bytes() =~= s.spec_bytes().skip(k + 1));
        }
        r = r2;
        k = k + 1;
    }
    r
}

/// A topic filter, with its kind.
#[derive(Debug, PartialEq, Eq)]
pub struct Filter {
    inner: ByteStr,
    kind: FilterKind,
}

impl View for Filter {
    /// The length-prefixed filter, and its kind.
    type V = (Seq<u8>, FilterKind);

    closed spec fn view(&self) -> (Seq<u8>, FilterKind) {
        (self.inner@, self.kind)
    }
}

impl Filter {
    /// Every `Filter` holds a valid topic filter, of the kind it records.
    #[verifier::type_invariant]
    pub open spec fn inv(self) -> bool {
        is_byte_str(self@.0) && spec_filter_new(self@.0.skip(2)) == Ok::<FilterKind, DecodeErrorView>(
            self@.1,
        )
    }

    /// The UTF-8 bytes of the filter.
    pub open spec fn content(self) -> Seq<u8> {
        self@.0.skip(2)
    }
}

impl Clone for Filter {
    fn clone(&self) -> (r: Self)
        ensures
            r@ == self@,
    {
        proof {
            use_type_invariant(self);
        }
        Filter { inner: self.inner.clone(), kind: self.kind }
    }
}

/// A borrowed topic filter, with its kind.
#[derive(Debug)]
pub struct FilterRef<'a> {
    inner: &'a str,
    kind: FilterKind,
}

impl<'a> View for FilterRef<'a> {
    /// The UTF-8 bytes of the filter, and its kind.
    type V = (Seq<u8>, FilterKind);

    closed spec fn view(&self) -> (Seq<u8>, FilterKind) {
        (self.inner.spec_bytes(), self.kind)
    }
}

impl<'a> FilterRef<'a> {
    pub fn as_str(&self) -> (r: &'a str)
        ensures
            r.spec_bytes() == self@.0,
    {
        self.inner
    }

    pub fn kind(&self) -> (r: FilterKind)
        ensures
            r == self@.1,
    {
        self.kind
    }

    /// The levels of the filter.
    pub fn iter(&self) -> (r: Vec<&'a str>)
        ensures
            levels_of(r@) == spec_levels(self@.0),
    {
        split_levels(self.inner)
    }
}

/// A topic filter taken apart by its kind.
#[derive(Debug)]
pub enum ClassifiedFilter<'a> {
    Regular(&'a str),
    Dollar(&'a str),
    Shared { group_name: &'a str, filter: FilterRef<'a> },
}

impl Filter {
    /// Validates `inner` as a topic filter.
    ///
    /// Ref: [MQTT-4.7.3-1], [MQTT-4.7.1-1], [MQTT-4.7.1-2], [MQTT-4.8.2-1], [MQTT-4.8.2-2]
    pub fn new(inner: ByteStr) -> (r: Result<Self, DecodeError>)
        ensures
            match spec_filter_new(inner.content()) {
                Ok(k) => r matches Ok(f) && f@ == (inner@, k),
                Err(e) => r matches Err(re) && re@ == e,
            },
    {
        proof {
            use_type_invariant(&inner);
        }
        let s = inner.as_str();
        let b = s.as_bytes();
        let ghost sb = b@;
        if b.len() == 0 {
            return Err(DecodeError::EmptyFilter);
        }
        let kind;
        if b[0] == DOLLAR_SIGN && starts_with_shared_prefix(b) {
            let e = scan_group(b, SHARED_SUBSCRIPTION_PREFIX_LEN);
            proof {
                lemma_group_end(sb.skip(7));
                if e < b.len() {
                    assert(sb.skip(7)[e - 7] == sb[e as int]);
                }
                vstd::utf8::encode_utf8_decode_utf8(s@);
            }
            if e == SHARED_SUBSCRIPTION_PREFIX_LEN || e == b.len() || b[e] != SEPARATOR {
                return Err(DecodeError::InvalidFilter(s.to_owned()));
            }
            if e + 1 == b.len() {
                return Err(DecodeError::EmptyFilter);
            }
            proof {
                assert(sb[e as int] == SEPARATOR);
            }
            let (_, tail) = split_at_ascii(s, e);
            proof {
                assert(tail.spec_bytes()[0] == sb[e as int]);
            }
            let f = split_first_ascii(tail);
            proof {
                assert(f.spec_bytes() =~= sb.skip(e + 1));
                vstd::utf8::encode_utf8_decode_utf8(f@);
            }
            if !check_filter_levels(f.as_bytes()) {
                return Err(DecodeError::InvalidFilter(f.to_owned()));
            }
            kind = FilterKind::Shared { index_group_name_and_filter: e };
        } else {
            proof {
                vstd::utf8::encode_utf8_decode_utf8(s@);
            }
            if !check_filter_levels(b) {
                return Err(DecodeError::InvalidFilter(s.to_owned()));
            }
            kind = if b[0] == DOLLAR_SIGN {
                FilterKind::Dollar
            } else {
                FilterKind::Regular
            };
        }
        Ok(Filter { inner, kind })
    }

    /// The filter taken apart by its kind.
    pub fn classify(&self) -> (r: ClassifiedFilter<'_>)
        ensures
            match self@.1 {
                FilterKind::Regular => r matches ClassifiedFilter::Regular(s) && s.spec_bytes()
                    == self.content(),
                FilterKind::Dollar => r matches ClassifiedFilter::Dollar(s) && s.spec_bytes()
                    == self.content(),
                FilterKind::Shared { index_group_name_and_filter: idx } => r matches ClassifiedFilter::Shared {
                    group_name,
                    filter,
                } && group_name.spec_bytes() == self.content().subrange(7, idx as int) && filter@ == (
                    self.content().skip(idx + 1),
                    FilterKind::Regular,
                ),
            },
    {
        proof {
            use_type_invariant(self);
        }
        let s = self.inner.as_str();
        match self.kind {
            FilterKind::Regular => ClassifiedFilter::Regular(s),
            FilterKind::Dollar => ClassifiedFilter::Dollar(s),
            FilterKind::Shared { index_group_name_and_filter: idx } => {
                let ghost sb = s.spec_bytes();
                proof {
                    lemma_shared_filter(sb, idx);
                    assert forall|j: int| 0 <= j < 7 implies #[trigger] sb[j] < 128 by {
                        assert(sb[j] == sb.take(7)[j]);
                    }
                }
                let (head, tail) = split_at_ascii(s, idx);
                proof {
                    assert(tail.spec_bytes()[0] == sb[idx as int]);
                    assert forall|j: int| 0 <= j < 7 implies #[trigger] head.spec_bytes()[j] < 128 by {
                        assert(head.spec_bytes()[j] == sb[j]);
                    }
                }
                let group_name = skip_ascii(head, SHARED_SUBSCRIPTION_PREFIX_LEN);
                let f = split_first_ascii(tail);
                proof {
                    assert(group_name.spec_bytes() =~= sb.subrange(7, idx as int));
                    assert(f.spec_bytes() =~= sb.skip(idx + 1));
                }
                ClassifiedFilter::Shared {
                    group_name,
                    filter: FilterRef { inner: f, kind: FilterKind::Regular },
                }
            },
        }
    }

    /// The levels of the filter.
    pub fn iter(&self) -> (r: Vec<&str>)
        ensures
            levels_of(r@) == spec_levels(self.content()),
    {
        split_levels(self.inner.as_str())
    }

    pub fn as_str(&self) -> (r: &str)
        ensures
            r.spec_bytes() == self.content(),
    {
        self.inner.as_str()
    }

    /// The kind of the filter.
    pub fn kind(&self) -> (r: FilterKind)
        ensures
            r == self@.1,
    {
        self.kind
    }

    /// Whether the filter holds a wildcard.
    pub fn is_wildcard(&self) -> (r: bool)
        ensures
            r == has_wildcard(self.content()),
    {
        find_wildcard(self.inner.as_bytes())
    }

    /// Whether the filter is a shared subscription.
    pub fn is_shared(&self) -> (r: bool)
        ensures
            r == (self@.1 is Shared),
    {
        match self.kind {
            FilterKind::Shared { .. } => true,
            _ => false,
        }
    }

    /// The filter, borrowed.
    pub fn as_shared(&self) -> (r: FilterRef<'_>)
        ensures
            r@ == (self.content(), self@.1),
    {
        FilterRef { inner: self.inner.as_str(), kind: self.kind }
    }

    /// Whether the topic name `topic` matches this filter.
    ///
    /// A `+` level matches any one level, a `#` level matches all remaining levels, and neither
    /// matches a level that starts with `$`. A shared subscription matches by the filter that
    /// follows its group name.
    pub fn matches_topic(&self, topic: &Topic) -> (r: bool)
        ensures
            r == spec_matches_topic(self.content(), self@.1, topic.content()),
    {
        let filter_levels = match self.classify() {
            ClassifiedFilter::Regular(s) => split_levels(s),
            ClassifiedFilter::Dollar(s) => split_levels(s),
            ClassifiedFilter::Shared { filter, .. } => filter.iter(),
        };
        let topic_levels = topic.iter();
        match_levels(&filter_levels, &topic_levels)
    }

    /// Copies `s` into `owned`, which must have nothing filled, and validates it as a topic filter.
    pub fn new_shared(owned: &mut Owned, s: &str) -> (r: Result<Self, DecodeError>)
        requires
            old(owned)@.0.len() == 0,
        ensures
            s.spec_bytes().len() > 65535 ==> r is Err,
            s.spec_bytes().len() <= 65535 ==> match spec_filter_new(s.spec_bytes()) {
                Ok(k) => r matches Ok(f) && f@ == (length_prefixed(s.spec_bytes()), k),
                Err(e) => r matches Err(re) && re@ == e,
            },
    {
        let b = ByteStr::new(owned, s)?;
        proof {
            if s.spec_bytes().len() <= 65535 {
                lemma_length_prefixed(s.spec_bytes(), Seq::empty());
            }
        }
        Filter::new(b)
    }

    /// Decodes a topic filter from the start of `src`. Returns `Ok(None)`, leaving `src` as it
    /// was, if `src` holds only part of it.
    pub fn decode(src: &mut Shared) -> (r: Result<Option<Self>, DecodeError>)
        ensures
            match (r, spec_decode_filter(old(src)@)) {
                (Ok(None), Ok(None)) => final(src)@ == old(src)@,
                (Ok(Some(f)), Ok(Some((raw, k)))) => f@ == (raw, k) && final(src)@ == old(src)@.skip(
                    raw.len() as int,
                ),
                (Err(e), Err(se)) => e@ == se && (spec_split_length_prefixed(old(src)@) matches Some(raw)
                    && final(src)@ == old(src)@.skip(raw.len() as int)),
                _ => false,
            },
    {
        match ByteStr::decode(src) {
            Ok(Some(s)) => match Filter::new(s) {
                Ok(f) => Ok(Some(f)),
                Err(e) => Err(e),
            },
            Ok(None) => Ok(None),
            Err(e) => Err(e),
        }
    }

    /// Appends the length prefix and the filter to `dst`.
    pub fn encode<B: BytesAccumulator>(&self, dst: &mut B) -> (r: Result<(), EncodeError>)
        requires
            old(dst).wf(),
            self@.0.len() <= old(dst).room(),
        ensures
            final(dst).wf(),
            r is Ok,
            final(dst).contents() == old(dst).contents() + self@.0,
            final(dst).spare() >= old(dst).spare() - self@.0.len(),
            final(dst).room() == old(dst).room() - self@.0.len(),
            final(dst).spare() == if old(dst).spare() + self@.0.len() <= old(dst).room() {
                old(dst).spare()
            } else {
                (old(dst).room() - self@.0.len()) as nat
            },
    {
        self.inner.encode(dst)
    }

    /// A copy of this filter that does not share its buffer.
    pub fn to_owned(&self) -> (r: Self)
        ensures
            r@ == self@,
    {
        proof {
            use_type_invariant(self);
        }
        let raw = Shared::copy_from_slice(self.inner.as_raw());
        Filter { inner: ByteStr::from_raw(raw), kind: self.kind }
    }

    /// Copies this filter into a new buffer taken from `owned`.
    pub fn to_shared(&self, owned: &mut Owned) -> (r: Result<Self, buffer_pool::Error>)
        requires
            old(owned)@.0.len() == 0,
        ensures
            r matches Ok(f) && f@ == self@,
            final(owned)@.0.len() == 0,
    {
        proof {
            use_type_invariant(self);
        }
        match self.inner.to_shared(owned) {
            Ok(s) => Ok(Filter { inner: s, kind: self.kind }),
            Err(e) => Err(e),
        }
    }

    pub fn into_inner(self) -> (r: ByteStr)
        ensures
            r@ == self@.0,
    {
        self.inner
    }
}

/// The decoding of a topic filter at the start of `s`: `Ok(None)` if `s` holds only part of it.
pub open spec fn spec_decode_filter(s: Seq<u8>) -> Result<Option<(Seq<u8>, FilterKind)>, DecodeErrorView> {
    match spec_decode_byte_str(s) {
        Ok(None) => Ok(None),
        Ok(Some(raw)) => match spec_filter_new(raw.skip(2)) {
            Ok(k) => Ok(Some((raw, k))),
            Err(e) => Err(e),
        },
        Err(e) => Err(e),
    }
}

/// Builds a topic filter holding `s`, which must be a valid topic filter.
pub fn filter(s: &str) -> (r: Filter)
    requires
        s.spec_bytes().len() <= 65535,
        spec_filter_new(s.spec_bytes()) is Ok,
    ensures
        r@ == (length_prefixed(s.spec_bytes()), spec_filter_new(s.spec_bytes())->Ok_0),
{
    let mut owned = Owned::with_capacity(0);
    let r = Filter::new_shared(&mut owned, s);
    r.unwrap()
}

/// Builds a topic filter holding `s`, which must be a valid topic filter.
pub fn filter_str(s: &str) -> (r: Filter)
    requires
        s.spec_bytes().len() <= 65535,
        spec_filter_new(s.spec_bytes()) is Ok,
    ensures
        r@ == (length_prefixed(s.spec_bytes()), spec_filter_new(s.spec_bytes())->Ok_0),
{
    filter(s)
}

/// Builds a topic filter holding its own copy of `s`, which must be a valid topic filter.
pub fn filter_owned(s: &str) -> (r: Filter)
    requires
        s.spec_bytes().len() <= 65535,
        spec_filter_new(s.spec_bytes()) is Ok,
    ensures
        r@ == (length_prefixed(s.spec_bytes()), spec_filter_new(s.spec_bytes())->Ok_0),
{
    filter(s)
}

} // verus!
