//! How many bytes property lists take, counted by property identifier. A packet re-encodes at
//! most the properties it decoded, so its properties take no more bytes than they did.
use vstd::prelude::*;

use crate::mqtt_proto::properties::{
    property_id, spec_encode_property, spec_encode_property_list, spec_find_property,
    spec_subscription_identifiers, spec_user_properties, user_properties_as_props, PropertyView,
};
use crate::mqtt_proto::publish::subscription_identifiers_as_props;

verus! {

/// The number of bytes the encodings of `ps` take.
pub open spec fn encoded_len(ps: Seq<PropertyView>) -> nat {
    spec_encode_property_list(ps).len()
}

/// The properties of `ps` with identifier `id`, in order.
pub open spec fn with_id(ps: Seq<PropertyView>, id: u8) -> Seq<PropertyView>
    decreases ps.len(),
{
    if ps.len() == 0 {
        Seq::empty()
    } else if property_id(ps.last()) == id {
        with_id(ps.drop_last(), id).push(ps.last())
    } else {
        with_id(ps.drop_last(), id)
    }
}

/// The bytes that the properties of `ps` with the identifiers `ids` take, identifier by
/// identifier.
pub open spec fn bytes_by_id(ps: Seq<PropertyView>, ids: Seq<u8>) -> nat
    decreases ids.len(),
{
    if ids.len() == 0 {
        0
    } else {
        bytes_by_id(ps, ids.drop_last()) + encoded_len(with_id(ps, ids.last()))
    }
}

/// Adding a property adds its bytes to the list's.
pub proof fn lemma_encoded_len_push(ps: Seq<PropertyView>, p: PropertyView)
    ensures
        encoded_len(ps.push(p)) == encoded_len(ps) + spec_encode_property(p).len(),
{
    assert(ps.push(p).drop_last() =~= ps);
}

/// Adding a property adds its bytes to its identifier's, if that is counted.
proof fn lemma_bytes_by_id_push(ps: Seq<PropertyView>, p: PropertyView, ids: Seq<u8>)
    requires
        ids.no_duplicates(),
    ensures
        bytes_by_id(ps.push(p), ids) == bytes_by_id(ps, ids) + (if ids.contains(property_id(p)) {
            spec_encode_property(p).len()
        } else {
            0
        }),
    decreases ids.len(),
{
    if ids.len() > 0 {
        let last = ids.last();
        assert(ps.push(p).drop_last() =~= ps);
        lemma_bytes_by_id_push(ps, p, ids.drop_last());
        if property_id(p) == last {
            lemma_encoded_len_push(with_id(ps, last), p);
            assert(!ids.drop_last().contains(last)) by {
                if ids.drop_last().contains(last) {
                    let j = choose|j: int| 0 <= j < ids.drop_last().len() && ids.drop_last()[j] == last;
                    assert(ids[j] == ids[ids.len() - 1]);
                }
            }
        } else {
            assert(ids.contains(property_id(p)) == ids.drop_last().contains(property_id(p))) by {
                if ids.contains(property_id(p)) {
                    let j = choose|j: int| 0 <= j < ids.len() && ids[j] == property_id(p);
                    assert(ids.drop_last()[j] == ids[j]);
                }
            }
        }
    }
}

/// Counted identifier by identifier, a list takes no more bytes than it does; exactly as many
/// when every identifier of it is counted.
pub proof fn lemma_bytes_by_id_bound(ps: Seq<PropertyView>, ids: Seq<u8>)
    requires
        ids.no_duplicates(),
    ensures
        bytes_by_id(ps, ids) <= encoded_len(ps),
        (forall|i: int| 0 <= i < ps.len() ==> ids.contains(property_id(#[trigger] ps[i])))
            ==> bytes_by_id(ps, ids) == encoded_len(ps),
    decreases ps.len(),
{
    if ps.len() == 0 {
        lemma_bytes_by_id_empty(ps, ids);
    } else {
        let q = ps.drop_last();
        assert(q.push(ps.last()) =~= ps);
        lemma_bytes_by_id_bound(q, ids);
        lemma_bytes_by_id_push(q, ps.last(), ids);
        lemma_encoded_len_push(q, ps.last());
        if forall|i: int| 0 <= i < ps.len() ==> ids.contains(property_id(#[trigger] ps[i])) {
            assert forall|i: int| 0 <= i < q.len() implies ids.contains(property_id(#[trigger] q[i])) by {
                assert(q[i] == ps[i]);
            }
            assert(ids.contains(property_id(ps[ps.len() - 1])));
        }
    }
}

/// An empty list takes no bytes by any identifier.
proof fn lemma_bytes_by_id_empty(ps: Seq<PropertyView>, ids: Seq<u8>)
    requires
        ps.len() == 0,
    ensures
        bytes_by_id(ps, ids) == 0,
    decreases ids.len(),
{
    if ids.len() > 0 {
        lemma_bytes_by_id_empty(ps, ids.drop_last());
    }
}

/// If `a` takes no more bytes than `b` by each identifier counted, it does in all.
pub proof fn lemma_bytes_by_id_le(a: Seq<PropertyView>, b: Seq<PropertyView>, ids: Seq<u8>)
    requires
        forall|i: int| 0 <= i < ids.len() ==> encoded_len(with_id(a, #[trigger] ids[i])) <= encoded_len(
            with_id(b, ids[i]),
        ),
    ensures
        bytes_by_id(a, ids) <= bytes_by_id(b, ids),
    decreases ids.len(),
{
    if ids.len() > 0 {
        assert forall|i: int| 0 <= i < ids.drop_last().len() implies encoded_len(
            with_id(a, #[trigger] ids.drop_last()[i]),
        ) <= encoded_len(with_id(b, ids.drop_last()[i])) by {
            assert(ids.drop_last()[i] == ids[i]);
        }
        lemma_bytes_by_id_le(a, b, ids.drop_last());
        assert(ids.last() == ids[ids.len() - 1]);
    }
}

/// The property found with identifier `id` is one of those with it.
pub proof fn lemma_found_len(ps: Seq<PropertyView>, id: u8)
    ensures
        spec_find_property(ps, id) matches Some(p) ==> spec_encode_property(p).len() <= encoded_len(
            with_id(ps, id),
        ),
    decreases ps.len(),
{
    if ps.len() > 0 {
        if property_id(ps.last()) == id {
            lemma_encoded_len_push(with_id(ps.drop_last(), id), ps.last());
        } else {
            lemma_found_len(ps.drop_last(), id);
        }
    }
}

/// The user properties of a list, as properties, are its properties with the user property
/// identifier.
pub proof fn lemma_user_properties_are_with_id(ps: Seq<PropertyView>)
    ensures
        user_properties_as_props(spec_user_properties(ps)) == with_id(ps, 0x26),
    decreases ps.len(),
{
    if ps.len() == 0 {
        assert(user_properties_as_props(spec_user_properties(ps)) =~= Seq::<PropertyView>::empty());
    } else {
        lemma_user_properties_are_with_id(ps.drop_last());
        let u = spec_user_properties(ps.drop_last());
        if let PropertyView::UserProperty(n, v) = ps.last() {
            assert(user_properties_as_props(u.push((n, v))) =~= user_properties_as_props(u).push(ps.last()));
        }
    }
}

/// The subscription identifiers of a list, as properties, are its properties with the
/// subscription identifier identifier.
pub proof fn lemma_subscription_identifiers_are_with_id(ps: Seq<PropertyView>)
    ensures
        subscription_identifiers_as_props(spec_subscription_identifiers(ps)) == with_id(ps, 0x0B),
    decreases ps.len(),
{
    if ps.len() == 0 {
        assert(subscription_identifiers_as_props(spec_subscription_identifiers(ps)) =~= Seq::<PropertyView>::empty());
    } else {
        lemma_subscription_identifiers_are_with_id(ps.drop_last());
        let u = spec_subscription_identifiers(ps.drop_last());
        if let PropertyView::SubscriptionIdentifier(v) = ps.last() {
            assert(subscription_identifiers_as_props(u.push(v)) =~= subscription_identifiers_as_props(u).push(
                ps.last(),
            ));
        }
    }
}

// ---------------------------------------------------------------------------------------------
// Lists built piece by piece
// ---------------------------------------------------------------------------------------------

/// The properties with an identifier of a list of one property.
pub broadcast proof fn lemma_with_id_one(p: PropertyView, id: u8)
    ensures
        #[trigger] with_id(seq![p], id) == (if property_id(p) == id {
            seq![p]
        } else {
            Seq::<PropertyView>::empty()
        }),
{
    assert(seq![p].drop_last() =~= Seq::<PropertyView>::empty());
    assert(seq![p].last() == p);
    assert(with_id(Seq::<PropertyView>::empty(), id) == Seq::<PropertyView>::empty());
    assert(Seq::<PropertyView>::empty().push(p) =~= seq![p]);
}

/// An empty list has no properties with any identifier.
pub broadcast proof fn lemma_with_id_nothing(id: u8)
    ensures
        #[trigger] with_id(Seq::<PropertyView>::empty(), id) == Seq::<PropertyView>::empty(),
{
}

/// The properties with an identifier of two lists, one after the other.
pub broadcast proof fn lemma_with_id_pieces(a: Seq<PropertyView>, b: Seq<PropertyView>, id: u8)
    ensures
        #[trigger] with_id(a + b, id) == with_id(a, id) + with_id(b, id),
    decreases b.len(),
{
    if b.len() == 0 {
        assert(a + b =~= a);
        assert(with_id(a, id) + with_id(b, id) =~= with_id(a, id));
    } else {
        assert((a + b).drop_last() =~= a + b.drop_last());
        assert((a + b).last() == b.last());
        lemma_with_id_pieces(a, b.drop_last(), id);
        if property_id(b.last()) == id {
            assert(with_id(a, id) + with_id(b.drop_last(), id).push(b.last()) =~= (with_id(a, id) + with_id(
                b.drop_last(),
                id,
            )).push(b.last()));
        }
    }
}

/// User properties have no properties with another identifier.
pub broadcast proof fn lemma_with_id_user_block(u: Seq<(Seq<u8>, Seq<u8>)>, id: u8)
    ensures
        #[trigger] with_id(user_properties_as_props(u), id) == (if id == 0x26 {
            user_properties_as_props(u)
        } else {
            Seq::<PropertyView>::empty()
        }),
    decreases u.len(),
{
    if u.len() == 0 {
        assert(user_properties_as_props(u) =~= Seq::<PropertyView>::empty());
    } else {
        lemma_with_id_user_block(u.drop_last(), id);
        assert(user_properties_as_props(u).drop_last() =~= user_properties_as_props(u.drop_last()));
        assert(user_properties_as_props(u.drop_last()).push(user_properties_as_props(u).last())
            =~= user_properties_as_props(u));
    }
}

/// Subscription identifiers have no properties with another identifier.
pub broadcast proof fn lemma_with_id_subscription_identifiers(ids: Seq<u32>, id: u8)
    ensures
        #[trigger] with_id(subscription_identifiers_as_props(ids), id) == (if id == 0x0B {
            subscription_identifiers_as_props(ids)
        } else {
            Seq::<PropertyView>::empty()
        }),
    decreases ids.len(),
{
    if ids.len() == 0 {
        assert(subscription_identifiers_as_props(ids) =~= Seq::<PropertyView>::empty());
    } else {
        lemma_with_id_subscription_identifiers(ids.drop_last(), id);
        assert(subscription_identifiers_as_props(ids).drop_last() =~= subscription_identifiers_as_props(
            ids.drop_last(),
        ));
        assert(subscription_identifiers_as_props(ids.drop_last()).push(
            subscription_identifiers_as_props(ids).last(),
        ) =~= subscription_identifiers_as_props(ids));
    }
}

/// The bytes of a list of one property.
pub broadcast proof fn lemma_encoded_len_one(p: PropertyView)
    ensures
        #[trigger] encoded_len(seq![p]) == spec_encode_property(p).len(),
{
    assert(seq![p].drop_last() =~= Seq::<PropertyView>::empty());
    assert(seq![p].last() == p);
    assert(spec_encode_property_list(Seq::<PropertyView>::empty()) == Seq::<u8>::empty());
    assert(spec_encode_property_list(seq![p]) =~= Seq::<u8>::empty() + spec_encode_property(p));
}

/// An empty list takes no bytes.
pub broadcast proof fn lemma_encoded_len_nothing()
    ensures
        #[trigger] encoded_len(Seq::<PropertyView>::empty()) == 0,
{
}

/// The bytes of two lists, one after the other.
pub broadcast proof fn lemma_encoded_len_pieces(a: Seq<PropertyView>, b: Seq<PropertyView>)
    ensures
        #[trigger] encoded_len(a + b) == encoded_len(a) + encoded_len(b),
    decreases b.len(),
{
    if b.len() == 0 {
        assert(a + b =~= a);
    } else {
        assert((a + b).drop_last() =~= a + b.drop_last());
        assert((a + b).last() == b.last());
        lemma_encoded_len_pieces(a, b.drop_last());
    }
}

pub broadcast group group_with_id {
    lemma_encoded_len_pieces,
    lemma_with_id_one,
    lemma_with_id_nothing,
    lemma_with_id_pieces,
    lemma_with_id_user_block,
    lemma_with_id_subscription_identifiers,
    lemma_encoded_len_one,
    lemma_encoded_len_nothing,
}

/// Every identifier, once.
pub open spec fn all_ids() -> Seq<u8> {
    Seq::new(256, |i: int| i as u8)
}

/// Every identifier is in [`all_ids`], once.
proof fn lemma_all_ids()
    ensures
        all_ids().no_duplicates(),
        forall|id: u8| #[trigger] all_ids().contains(id),
{
    assert forall|id: u8| #[trigger] all_ids().contains(id) by {
        assert(all_ids()[id as int] == id);
    }
}

/// If `a` takes no more bytes than `b` by every identifier, it takes no more bytes.
pub proof fn lemma_encoded_len_by_id(a: Seq<PropertyView>, b: Seq<PropertyView>)
    requires
        forall|id: u8| encoded_len(#[trigger] with_id(a, id)) <= encoded_len(with_id(b, id)),
    ensures
        encoded_len(a) <= encoded_len(b),
{
    lemma_all_ids();
    lemma_bytes_by_id_bound(a, all_ids());
    lemma_bytes_by_id_bound(b, all_ids());
    lemma_bytes_by_id_le(a, b, all_ids());
}

} // verus!
