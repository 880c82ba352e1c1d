//! Packet Identifier (PKID) management for an MQTT session.
//!
//! A [`PkidPool`] leases the identifiers `1..=max` in cyclic order: each lease takes the first
//! identifier that is not leased, starting just after the one leased last, and wraps around
//! from `max` to 1. A released identifier can be leased again.
use std::collections::HashSet;
use vstd::prelude::*;

use crate::mqtt_proto::PacketIdentifier;

verus! {

broadcast use vstd::std_specs::hash::group_hash_axioms;

/// Yields the packet identifiers from `current` up to `end`, inclusive.
struct PkidRange {
    current: PacketIdentifier,
    end: PacketIdentifier,
    finished: bool,
}

impl PkidRange {
    #[verifier::type_invariant]
    spec fn inv(self) -> bool {
        self.current@ <= self.end@
    }

    /// The identifier the range yields next, or 1 once it is finished and starts over.
    spec fn cursor(self) -> u16 {
        if self.finished {
            1
        } else {
            self.current@
        }
    }

    fn new(start: PacketIdentifier, end: PacketIdentifier) -> (r: Self)
        requires
            start@ <= end@,
        ensures
            r.current == start,
            r.end == end,
            !r.finished,
    {
        PkidRange { current: start, end, finished: false }
    }

    /// The next identifier of the range, or `None` once `end` has been yielded.
    fn next(&mut self) -> (r: Option<PacketIdentifier>)
        ensures
            final(self).end == old(self).end,
            old(self).finished ==> r is None && *final(self) == *old(self),
            !old(self).finished ==> r == Some(old(self).current) && if old(self).current@
                == old(self).end@ {
                final(self).finished && final(self).current == old(self).current
            } else {
                !final(self).finished && final(self).current@ == old(self).current@ + 1
            },
    {
        proof {
            use_type_invariant(&*self);
        }
        if self.finished {
            return None;
        }
        let result = self.current;
        if self.current.get() == self.end.get() {
            self.finished = true;
        } else {
            self.current = self.current.add(1);
        }
        Some(result)
    }
}

/// The identifier `k` places after `cursor` among `1..=max`, wrapping around from `max` to 1.
pub open spec fn cyclic(cursor: int, k: int, max: int) -> int {
    if cursor + k <= max {
        cursor + k
    } else {
        cursor + k - max
    }
}

/// The identifiers `1..=max`.
pub open spec fn pkid_range(max: u16) -> Set<u16> {
    Set::new(|i: u16| 1 <= i <= max)
}

/// The state of a pool: the identifiers leased, the one the search for a free identifier
/// starts at, and the largest identifier.
#[verifier::ext_equal]
pub struct PkidPoolView {
    pub leased: Set<u16>,
    pub cursor: u16,
    pub max: u16,
}

impl PkidPoolView {
    /// The state every pool is in: what is leased lies in `1..=max`, and so does the cursor.
    pub open spec fn valid(self) -> bool {
        &&& self.leased.finite()
        &&& self.leased.subset_of(pkid_range(self.max))
        &&& 1 <= self.cursor <= self.max
    }

    /// Whether `p` is what the next lease gives: the first identifier, in cyclic order from the
    /// cursor, that is not leased.
    pub open spec fn is_next_free(self, p: u16) -> bool {
        exists|k: int|
            0 <= k < self.max && p == cyclic(self.cursor as int, k, self.max as int) && !self.leased.contains(p)
                && forall|j: int| 0 <= j < k ==> #[trigger] self.leased.contains(
                cyclic(self.cursor as int, j, self.max as int) as u16,
            )
    }
}

/// Manages leasing and releasing Packet Identifiers for MQTT operations.
pub struct PkidPool {
    leased: HashSet<u16>,
    cycle: PkidRange,
    max_pkid: PacketIdentifier,
}

impl View for PkidPool {
    type V = PkidPoolView;

    closed spec fn view(&self) -> PkidPoolView {
        PkidPoolView { leased: self.leased@, cursor: self.cycle.cursor(), max: self.max_pkid@ }
    }
}

/// The identifiers `1..=n` are `n` identifiers.
proof fn lemma_pkid_range_len(n: u16)
    ensures
        pkid_range(n).finite(),
        pkid_range(n).len() == n,
    decreases n,
{
    if n == 0 {
        assert(pkid_range(n) =~= Set::empty());
    } else {
        lemma_pkid_range_len((n - 1) as u16);
        assert(pkid_range((n - 1) as u16).insert(n) =~= pkid_range(n));
    }
}

/// A pool is full, its leases as many as its identifiers, exactly when every identifier is
/// leased.
pub proof fn lemma_pool_full(v: PkidPoolView)
    requires
        v.valid(),
    ensures
        v.leased.len() <= v.max,
        v.leased.len() == v.max <==> v.leased == pkid_range(v.max),
{
    lemma_pkid_range_len(v.max);
    vstd::set_lib::lemma_len_subset(v.leased, pkid_range(v.max));
    if v.leased.len() == v.max {
        vstd::set_lib::lemma_subset_equality(v.leased, pkid_range(v.max));
    }
}

/// The next lease gives an identifier in `1..=max` that is not leased; it is the cursor itself
/// when the cursor is free, and it is never one that a free identifier met earlier from the
/// cursor would come before. The cursor then moves one place on, from `max` back to 1.
pub proof fn lemma_next_free_order(v: PkidPoolView, p: u16, q: u16)
    requires
        v.valid(),
    ensures
        v.is_next_free(p) ==> 1 <= p <= v.max && !v.leased.contains(p),
        !v.leased.contains(v.cursor) ==> (v.is_next_free(p) <==> p == v.cursor),
        v.is_next_free(p) && v.is_next_free(q) ==> p == q,
        cyclic(v.cursor as int, 1, v.max as int) == if v.cursor < v.max {
            v.cursor + 1
        } else {
            1
        },
{
    if v.is_next_free(p) {
        let k = choose|k: int|
            0 <= k < v.max && p == cyclic(v.cursor as int, k, v.max as int) && !v.leased.contains(p)
                && forall|j: int| 0 <= j < k ==> #[trigger] v.leased.contains(
                cyclic(v.cursor as int, j, v.max as int) as u16,
            );
        if !v.leased.contains(v.cursor) && k > 0 {
            assert(v.leased.contains(cyclic(v.cursor as int, 0, v.max as int) as u16));
        }
        if v.is_next_free(q) {
            let k2 = choose|k: int|
                0 <= k < v.max && q == cyclic(v.cursor as int, k, v.max as int) && !v.leased.contains(q)
                    && forall|j: int| 0 <= j < k ==> #[trigger] v.leased.contains(
                    cyclic(v.cursor as int, j, v.max as int) as u16,
                );
            if k < k2 {
                assert(v.leased.contains(cyclic(v.cursor as int, k, v.max as int) as u16));
            } else if k2 < k {
                assert(v.leased.contains(cyclic(v.cursor as int, k2, v.max as int) as u16));
            }
        }
    }
    if !v.leased.contains(v.cursor) {
        assert(v.cursor == cyclic(v.cursor as int, 0, v.max as int));
        if p == v.cursor {
            assert(v.is_next_free(p));
        }
    }
}

impl PkidPool {
    /// What every pool keeps: its leases lie in `1..=max`, and its range ends at `max`.
    pub closed spec fn wf(&self) -> bool {
        &&& self.leased@.finite()
        &&& self.leased@.subset_of(pkid_range(self.max_pkid@))
        &&& self.cycle.end == self.max_pkid
        &&& 1 <= self.cycle.current@ <= self.max_pkid@
    }

    /// A pool in its invariant is valid.
    pub proof fn lemma_valid(&self)
        requires
            self.wf(),
        ensures
            self@.valid(),
    {
    }

    /// Creates a new `PkidPool` with Packet Identifiers ranging from 1 to `max_pkid`.
    pub fn new(max_pkid: PacketIdentifier) -> (r: Self)
        ensures
            r.wf(),
            r@.valid(),
            r@.leased == Set::<u16>::empty(),
            r@.cursor == 1,
            r@.max == max_pkid@,
    {
        proof {
            use_type_invariant(&max_pkid);
        }
        PkidPool {
            leased: HashSet::new(),
            cycle: PkidRange::new(PacketIdentifier::new_unchecked(1), max_pkid),
            max_pkid,
        }
    }

    /// The next identifier in cyclic order, moving the cursor past it.
    fn next_in_cycle(&mut self) -> (r: PacketIdentifier)
        requires
            old(self).wf(),
        ensures
            final(self).wf(),
            r@ == old(self)@.cursor,
            final(self)@.cursor == cyclic(old(self)@.cursor as int, 1, old(self)@.max as int),
            final(self)@.leased == old(self)@.leased,
            final(self)@.max == old(self)@.max,
    {
        proof {
            use_type_invariant(&self.cycle);
            use_type_invariant(&self.max_pkid);
        }
        match self.cycle.next() {
            Some(p) => p,
            None => {
                self.cycle = PkidRange::new(PacketIdentifier::new_unchecked(1), self.max_pkid);
                match self.cycle.next() {
                    Some(p) => p,
                    None => PacketIdentifier::new_unchecked(1),
                }
            },
        }
    }

    /// Attempts to lease the next available Packet Identifier: the first one, in cyclic order
    /// from the cursor, that is not leased. Returns `None` if all identifiers are in use.
    pub fn lease_next_pkid(&mut self) -> (r: Option<PacketIdentifier>)
        requires
            old(self).wf(),
        ensures
            final(self).wf(),
            final(self)@.valid(),
            old(self)@.leased.len() == old(self)@.max ==> r is None && final(self)@ == old(self)@,
            old(self)@.leased.len() < old(self)@.max ==> (r matches Some(p) && {
                &&& old(self)@.is_next_free(p@)
                &&& final(self)@.leased == old(self)@.leased.insert(p@)
                &&& final(self)@.cursor == cyclic(p@ as int, 1, old(self)@.max as int)
                &&& final(self)@.max == old(self)@.max
            }),
    {
        proof {
            use_type_invariant(&self.cycle);
            use_type_invariant(&self.max_pkid);
            lemma_pool_full(self@);
        }
        if self.leased.len() == self.max_pkid.get() as usize {
            return None;
        }
        let ghost start = self@;
        let mut k: u16 = 0;
        loop
            invariant
                self.wf(),
                start == old(self)@,
                start.valid(),
                start.leased.len() < start.max,
                0 <= k < start.max,
                self@.leased == start.leased,
                self@.max == start.max,
                self@.cursor == cyclic(start.cursor as int, k as int, start.max as int),
                forall|j: int|
                    0 <= j < k ==> #[trigger] start.leased.contains(
                        cyclic(start.cursor as int, j, start.max as int) as u16,
                    ),
            decreases start.max - k,
        {
            let pkid = self.next_in_cycle();
            if !self.leased.contains(&pkid.get()) {
                proof {
                    use_type_invariant(&pkid);
                }
                self.leased.insert(pkid.get());
                assert(start.is_next_free(pkid@));
                return Some(pkid);
            }
            if k + 1 == self.max_pkid.get() {
                proof {
                    assert forall|i: u16| pkid_range(start.max).contains(i) implies start.leased.contains(
                        i,
                    ) by {
                        let j: int = if i >= start.cursor {
                            i - start.cursor
                        } else {
                            i + start.max - start.cursor
                        };
                        if j < k {
                            assert(start.leased.contains(
                                cyclic(start.cursor as int, j, start.max as int) as u16,
                            ));
                        }
                    }
                    assert(pkid_range(start.max).subset_of(start.leased));
                    lemma_pkid_range_len(start.max);
                    vstd::set_lib::lemma_len_subset(pkid_range(start.max), start.leased);
                }
                return None;
            }
            k = k + 1;
        }
    }

    /// Releases a previously leased Packet Identifier, making it available for future leasing.
    /// Returns `true` if the identifier was released, or `false` if it was not leased.
    pub fn release_pkid(&mut self, pkid: PacketIdentifier) -> (r: bool)
        requires
            old(self).wf(),
        ensures
            final(self).wf(),
            final(self)@.valid(),
            r == old(self)@.leased.contains(pkid@),
            final(self)@.leased == old(self)@.leased.remove(pkid@),
            final(self)@.cursor == old(self)@.cursor,
            final(self)@.max == old(self)@.max,
    {
        let r = self.leased.remove(&pkid.get());
        proof {
            use_type_invariant(&self.cycle);
            use_type_invariant(&self.max_pkid);
        }
        r
    }
}

} // verus!
