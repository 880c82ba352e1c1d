//! The insertion-ordered maps the session keeps its trackers in, from packet identifiers to a
//! small state code.
use indexmap::IndexMap;
use vstd::prelude::*;

verus! {

#[verifier::external_type_specification]
#[verifier::external_body]
#[verifier::reject_recursive_types(K)]
#[verifier::reject_recursive_types(V)]
#[verifier::reject_recursive_types(S)]
pub struct ExIndexMap<K, V, S>(IndexMap<K, V, S>);

/// The entries of a map, in their order.
pub uninterp spec fn index_map_entries(m: IndexMap<u16, u8>) -> Seq<(u16, u8)>;

/// No key occurs twice among `s`.
pub open spec fn keys_unique(s: Seq<(u16, u8)>) -> bool {
    forall|i: int, j: int| 0 <= i < s.len() && 0 <= j < s.len() && i != j ==> s[i].0 != s[j].0
}

/// Whether some entry of `s` has the key `k`.
pub open spec fn has_key(s: Seq<(u16, u8)>, k: u16) -> bool {
    exists|i: int| 0 <= i < s.len() && s[i].0 == k
}

/// The position of the entry with key `k` among `s`, or -1 if there is none.
pub open spec fn key_index(s: Seq<(u16, u8)>, k: u16) -> int {
    if has_key(s, k) {
        choose|i: int| 0 <= i < s.len() && s[i].0 == k
    } else {
        -1
    }
}

/// The value stored under `k` among `s`, if any.
pub open spec fn lookup(s: Seq<(u16, u8)>, k: u16) -> Option<u8> {
    if has_key(s, k) {
        Some(s[key_index(s, k)].1)
    } else {
        None
    }
}

/// `IndexMap::new`: a map with no entries.
#[verifier::external_body]
pub(crate) fn map_new() -> (r: IndexMap<u16, u8>)
    ensures
        index_map_entries(r) == Seq::<(u16, u8)>::empty(),
{
    IndexMap::new()
}

/// `IndexMap::len`: the number of entries.
#[verifier::external_body]
pub(crate) fn map_len(m: &IndexMap<u16, u8>) -> (r: usize)
    ensures
        r == index_map_entries(*m).len(),
{
    m.len()
}

/// `IndexMap::get_index`: the entry at position `i`, if there is one.
#[verifier::external_body]
pub(crate) fn map_get_index(m: &IndexMap<u16, u8>, i: usize) -> (r: Option<(u16, u8)>)
    ensures
        i < index_map_entries(*m).len() ==> r == Some(index_map_entries(*m)[i as int]),
        i >= index_map_entries(*m).len() ==> r is None,
{
    m.get_index(i).map(|(k, v)| (*k, *v))
}

/// `IndexMap::get`: the value stored under `k`, if any.
#[verifier::external_body]
pub(crate) fn map_get(m: &IndexMap<u16, u8>, k: u16) -> (r: Option<u8>)
    ensures
        r == lookup(index_map_entries(*m), k),
{
    m.get(&k).copied()
}

/// `IndexMap::insert`: where `k` is present, its value is replaced in place and the old value
/// returned; otherwise the entry is appended last and `None` returned.
#[verifier::external_body]
pub(crate) fn map_insert(m: &mut IndexMap<u16, u8>, k: u16, v: u8) -> (r: Option<u8>)
    ensures
        r == lookup(index_map_entries(*old(m)), k),
        has_key(index_map_entries(*old(m)), k) ==> index_map_entries(*final(m))
            == index_map_entries(*old(m)).update(key_index(index_map_entries(*old(m)), k), (k, v)),
        !has_key(index_map_entries(*old(m)), k) ==> index_map_entries(*final(m))
            == index_map_entries(*old(m)).push((k, v)),
{
    m.insert(k, v)
}

/// `IndexMap::shift_remove`: removes the entry with key `k`, if any, keeping the order of the
/// others, and returns its value.
#[verifier::external_body]
pub(crate) fn map_shift_remove(m: &mut IndexMap<u16, u8>, k: u16) -> (r: Option<u8>)
    ensures
        r == lookup(index_map_entries(*old(m)), k),
        has_key(index_map_entries(*old(m)), k) ==> index_map_entries(*final(m))
            == index_map_entries(*old(m)).remove(key_index(index_map_entries(*old(m)), k)),
        !has_key(index_map_entries(*old(m)), k) ==> index_map_entries(*final(m))
            == index_map_entries(*old(m)),
{
    m.shift_remove(&k)
}

/// `IndexMap::shift_remove_index`: removes the entry at position `i`, if there is one, keeping
/// the order of the others, and returns it.
#[verifier::external_body]
pub(crate) fn map_shift_remove_index(m: &mut IndexMap<u16, u8>, i: usize) -> (r: Option<(u16, u8)>)
    ensures
        i < index_map_entries(*old(m)).len() ==> {
            &&& r == Some(index_map_entries(*old(m))[i as int])
            &&& index_map_entries(*final(m)) == index_map_entries(*old(m)).remove(i as int)
        },
        i >= index_map_entries(*old(m)).len() ==> {
            &&& r is None
            &&& index_map_entries(*final(m)) == index_map_entries(*old(m))
        },
{
    m.shift_remove_index(i)
}

/// `IndexMap::clear`: removes every entry.
#[verifier::external_body]
pub(crate) fn map_clear(m: &mut IndexMap<u16, u8>)
    ensures
        index_map_entries(*final(m)) == Seq::<(u16, u8)>::empty(),
{
    m.clear()
}

/// Every value among `s` lies in `lo..=hi`.
pub open spec fn values_between(s: Seq<(u16, u8)>, lo: u8, hi: u8) -> bool {
    forall|i: int| 0 <= i < s.len() ==> lo <= #[trigger] s[i].1 <= hi
}

/// `s` with the value under `k` replaced by `v`; `s` itself where `k` is absent.
pub open spec fn set_value(s: Seq<(u16, u8)>, k: u16, v: u8) -> Seq<(u16, u8)> {
    if has_key(s, k) {
        s.update(key_index(s, k), (k, v))
    } else {
        s
    }
}

/// `s` without the entry under `k`; `s` itself where `k` is absent.
pub open spec fn remove_key(s: Seq<(u16, u8)>, k: u16) -> Seq<(u16, u8)> {
    if has_key(s, k) {
        s.remove(key_index(s, k))
    } else {
        s
    }
}

/// `s` with `(k, v)`: in place of the entry under `k` if there is one, else last.
pub open spec fn insert_key(s: Seq<(u16, u8)>, k: u16, v: u8) -> Seq<(u16, u8)> {
    if has_key(s, k) {
        s.update(key_index(s, k), (k, v))
    } else {
        s.push((k, v))
    }
}

/// Inserting keeps the keys unique and the values within bounds that hold `v`; the key is
/// then present with the value `v`.
pub proof fn lemma_insert_key(s: Seq<(u16, u8)>, k: u16, v: u8)
    requires
        keys_unique(s),
    ensures
        keys_unique(insert_key(s, k, v)),
        has_key(s, k) ==> set_value(s, k, v) == insert_key(s, k, v),
        has_key(s, k) ==> insert_key(s, k, v).len() == s.len(),
        !has_key(s, k) ==> insert_key(s, k, v) == s.push((k, v)),
        lookup(insert_key(s, k, v), k) == Some(v),
        forall|lo: u8, hi: u8|
            values_between(s, lo, hi) && lo <= v <= hi ==> #[trigger] values_between(
                insert_key(s, k, v),
                lo,
                hi,
            ),
{
    let t = insert_key(s, k, v);
    if has_key(s, k) {
        let j = key_index(s, k);
        assert(t[j].0 == k);
        assert(has_key(t, k));
        assert forall|a: int, b: int| 0 <= a < t.len() && 0 <= b < t.len() && a != b implies t[a].0
            != t[b].0 by {
            if a != j && b != j {
                assert(t[a] == s[a] && t[b] == s[b]);
            } else if a == j {
                assert(t[b] == s[b]);
                assert(s[j].0 == k);
            } else {
                assert(t[a] == s[a]);
                assert(s[j].0 == k);
            }
        }
        assert(key_index(t, k) == j);
    } else {
        let j = s.len() as int;
        assert(t[j].0 == k);
        assert(has_key(t, k));
        assert forall|a: int, b: int| 0 <= a < t.len() && 0 <= b < t.len() && a != b implies t[a].0
            != t[b].0 by {
            if a != j && b != j {
                assert(t[a] == s[a] && t[b] == s[b]);
            } else if a == j {
                assert(t[b] == s[b]);
                assert(!(s[b].0 == k));
            } else {
                assert(t[a] == s[a]);
                assert(!(s[a].0 == k));
            }
        }
        assert(key_index(t, k) == j);
    }
    assert forall|lo: u8, hi: u8|
        values_between(s, lo, hi) && lo <= v <= hi implies #[trigger] values_between(t, lo, hi) by {
        assert forall|i: int| 0 <= i < t.len() implies lo <= #[trigger] t[i].1 <= hi by {
            if i < s.len() {
                assert(s[i].1 == s[i].1);
            }
        }
    }
}

/// Removing an entry keeps the keys unique and the values within the bounds they had; the key
/// is then absent.
pub proof fn lemma_remove_key(s: Seq<(u16, u8)>, k: u16)
    requires
        keys_unique(s),
    ensures
        keys_unique(remove_key(s, k)),
        !has_key(remove_key(s, k), k),
        forall|lo: u8, hi: u8|
            values_between(s, lo, hi) ==> #[trigger] values_between(remove_key(s, k), lo, hi),
{
    let t = remove_key(s, k);
    if has_key(s, k) {
        let j = key_index(s, k);
        assert forall|a: int| 0 <= a < t.len() implies #[trigger] t[a] == s[if a < j { a } else { a + 1 }] by {}
        assert forall|a: int, b: int| 0 <= a < t.len() && 0 <= b < t.len() && a != b implies t[a].0
            != t[b].0 by {
            let a2 = if a < j { a } else { a + 1 };
            let b2 = if b < j { b } else { b + 1 };
            assert(t[a] == s[a2]);
            assert(t[b] == s[b2]);
        }
        if has_key(t, k) {
            let a = choose|a: int| 0 <= a < t.len() && t[a].0 == k;
            let a2 = if a < j { a } else { a + 1 };
            assert(t[a] == s[a2]);
        }
        assert forall|lo: u8, hi: u8| values_between(s, lo, hi) implies #[trigger] values_between(
            t,
            lo,
            hi,
        ) by {
            assert forall|i: int| 0 <= i < t.len() implies lo <= #[trigger] t[i].1 <= hi by {
                let i2 = if i < j { i } else { i + 1 };
                assert(t[i] == s[i2]);
            }
        }
    }
}

/// Removing the first entry keeps the keys unique and the values within the bounds they had.
pub proof fn lemma_drop_first(s: Seq<(u16, u8)>)
    requires
        keys_unique(s),
        s.len() > 0,
    ensures
        keys_unique(s.drop_first()),
        forall|lo: u8, hi: u8|
            values_between(s, lo, hi) ==> #[trigger] values_between(s.drop_first(), lo, hi),
        s.remove(0) == s.drop_first(),
{
    assert(s.remove(0) =~= s.drop_first());
    let t = s.drop_first();
    assert forall|a: int, b: int| 0 <= a < t.len() && 0 <= b < t.len() && a != b implies t[a].0
        != t[b].0 by {
        assert(t[a] == s[a + 1]);
        assert(t[b] == s[b + 1]);
    }
    assert forall|lo: u8, hi: u8| values_between(s, lo, hi) implies #[trigger] values_between(
        t,
        lo,
        hi,
    ) by {
        assert forall|i: int| 0 <= i < t.len() implies lo <= #[trigger] t[i].1 <= hi by {
            assert(t[i] == s[i + 1]);
        }
    }
}

/// The keys of `s`.
pub open spec fn keys_set(s: Seq<(u16, u8)>) -> Set<u16> {
    Set::new(|k: u16| has_key(s, k))
}

/// The keys of `s` whose value is `c`.
pub open spec fn keys_with(s: Seq<(u16, u8)>, c: u8) -> Set<u16> {
    Set::new(|k: u16| lookup(s, k) == Some(c))
}

/// How inserting changes the keys, and the keys with a given value.
pub proof fn lemma_insert_key_sets(s: Seq<(u16, u8)>, k: u16, v: u8, c: u8)
    requires
        keys_unique(s),
    ensures
        keys_set(insert_key(s, k, v)) == keys_set(s).insert(k),
        keys_with(insert_key(s, k, v), c) == if v == c {
            keys_with(s, c).insert(k)
        } else {
            keys_with(s, c).remove(k)
        },
{
    let t = insert_key(s, k, v);
    lemma_insert_key(s, k, v);
    assert forall|x: u16| has_key(t, x) == (has_key(s, x) || x == k) by {
        if has_key(s, x) {
            let j = key_index(s, x);
            assert(t[j].0 == x);
        }
        if has_key(t, x) && x != k {
            let j = choose|j: int| 0 <= j < t.len() && t[j].0 == x;
            if has_key(s, k) {
                assert(t[j] == s[j]);
            } else if j < s.len() {
                assert(t[j] == s[j]);
            }
        }
    }
    assert(keys_set(t) =~= keys_set(s).insert(k));
    assert forall|x: u16| x != k implies lookup(t, x) == lookup(s, x) by {
        if has_key(s, x) {
            let j = key_index(s, x);
            assert(t[j] == s[j]);
            assert(key_index(t, x) == j);
        }
    }
    if v == c {
        assert(keys_with(t, c) =~= keys_with(s, c).insert(k));
    } else {
        assert(keys_with(t, c) =~= keys_with(s, c).remove(k));
    }
}

/// How removing changes the keys, and the keys with a given value.
pub proof fn lemma_remove_key_sets(s: Seq<(u16, u8)>, k: u16, c: u8)
    requires
        keys_unique(s),
    ensures
        keys_set(remove_key(s, k)) == keys_set(s).remove(k),
        keys_with(remove_key(s, k), c) == keys_with(s, c).remove(k),
{
    let t = remove_key(s, k);
    lemma_remove_key(s, k);
    if has_key(s, k) {
        let j = key_index(s, k);
        assert forall|a: int| 0 <= a < t.len() implies #[trigger] t[a] == s[if a < j { a } else { a + 1 }] by {}
        assert forall|x: u16| x != k implies has_key(t, x) == has_key(s, x) && lookup(t, x) == lookup(
            s,
            x,
        ) by {
            if has_key(s, x) {
                let m = key_index(s, x);
                let a = if m < j { m } else { m - 1 };
                assert(t[a] == s[m]);
                assert(has_key(t, x));
                assert(key_index(t, x) == a);
            }
            if has_key(t, x) {
                let a = key_index(t, x);
                let m = if a < j { a } else { a + 1 };
                assert(t[a] == s[m]);
            }
        }
    }
    assert(keys_set(t) =~= keys_set(s).remove(k));
    assert(keys_with(t, c) =~= keys_with(s, c).remove(k));
}

/// Dropping the first entry drops its key, and the keys with a given value lose it too.
pub proof fn lemma_drop_first_sets(s: Seq<(u16, u8)>, c: u8)
    requires
        keys_unique(s),
        s.len() > 0,
    ensures
        keys_set(s.drop_first()) == keys_set(s).remove(s[0].0),
        keys_with(s.drop_first(), c) == keys_with(s, c).remove(s[0].0),
{
    assert(key_index(s, s[0].0) == 0);
    assert(remove_key(s, s[0].0) == s.remove(0));
    lemma_drop_first(s);
    lemma_remove_key_sets(s, s[0].0, c);
}

} // verus!
