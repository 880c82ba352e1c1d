//! Facts about property lists built piece by piece: what is found in them, and when they can
//! be decoded back. Packets list their properties as pieces of at most one property each, and
//! a piece of user properties; these facts let the properties of a packet be followed through
//! such a list.
use vstd::prelude::*;

use crate::mqtt_proto::packet_fields::{lemma_find_property_concat, lemma_user_properties_concat, user_properties_wf, lemma_subscription_identifiers_concat};
use crate::mqtt_proto::publish::subscription_identifiers_as_props;
use crate::mqtt_proto::VARINT_MAX;
use crate::mqtt_proto::properties::{
    properties_decodable, property_id, property_wf, spec_encode_property, spec_find_property,
    spec_subscription_identifiers, spec_user_properties, user_properties_as_props, PropertyView,
    no_duplicate_properties,
};

verus! {

/// Finding in a list of one property.
pub broadcast proof fn lemma_find_one(p: PropertyView, id: u8)
    ensures
        #[trigger] spec_find_property(seq![p], id) == (if property_id(p) == id {
            Some(p)
        } else {
            None
        }),
{
    assert(seq![p].drop_last() =~= Seq::<PropertyView>::empty());
    assert(seq![p].last() == p);
    assert(spec_find_property(Seq::<PropertyView>::empty(), id) is None);
}

/// Finding in an empty list.
pub broadcast proof fn lemma_find_nothing(id: u8)
    ensures
        #[trigger] spec_find_property(Seq::<PropertyView>::empty(), id) is None,
{
}

/// Finding in two lists, one after the other: the later one wins.
pub broadcast proof fn lemma_find_pieces(a: Seq<PropertyView>, b: Seq<PropertyView>, id: u8)
    ensures
        #[trigger] spec_find_property(a + b, id) == (if spec_find_property(b, id) is Some {
            spec_find_property(b, id)
        } else {
            spec_find_property(a, id)
        }),
{
    lemma_find_property_concat(a, b, id);
}

/// User properties hold no other property.
pub broadcast proof fn lemma_find_in_user_block(u: Seq<(Seq<u8>, Seq<u8>)>, id: u8)
    requires
        id != 0x26,
    ensures
        #[trigger] spec_find_property(user_properties_as_props(u), id) is None,
    decreases u.len(),
{
    if u.len() > 0 {
        lemma_find_in_user_block(u.drop_last(), id);
        assert(user_properties_as_props(u).drop_last() =~= user_properties_as_props(u.drop_last()));
    }
}

/// The user properties of a list of one property.
pub broadcast proof fn lemma_user_properties_one(p: PropertyView)
    ensures
        #[trigger] spec_user_properties(seq![p]) == (match p {
            PropertyView::UserProperty(n, v) => seq![(n, v)],
            _ => Seq::<(Seq<u8>, Seq<u8>)>::empty(),
        }),
{
    assert(seq![p].drop_last() =~= Seq::<PropertyView>::empty());
    assert(spec_user_properties(Seq::<PropertyView>::empty()) == Seq::<(Seq<u8>, Seq<u8>)>::empty());
}

/// An empty list holds no user properties.
pub broadcast proof fn lemma_user_properties_nothing()
    ensures
        #[trigger] spec_user_properties(Seq::<PropertyView>::empty()) == Seq::<(Seq<u8>, Seq<u8>)>::empty(),
{
}

/// The user properties of two lists, one after the other.
pub broadcast proof fn lemma_user_properties_pieces(a: Seq<PropertyView>, b: Seq<PropertyView>)
    ensures
        #[trigger] spec_user_properties(a + b) == spec_user_properties(a) + spec_user_properties(b),
{
    lemma_user_properties_concat(a, b);
}

/// User properties, as properties, give back the user properties.
pub broadcast proof fn lemma_user_properties_block(u: Seq<(Seq<u8>, Seq<u8>)>)
    ensures
        #[trigger] spec_user_properties(user_properties_as_props(u)) == u,
        spec_subscription_identifiers(user_properties_as_props(u)) == Seq::<u32>::empty(),
{
    crate::mqtt_proto::packet_fields::lemma_user_properties_of_props(u);
}

/// The subscription identifiers of a list of one property.
pub broadcast proof fn lemma_subscription_identifiers_one(p: PropertyView)
    ensures
        #[trigger] spec_subscription_identifiers(seq![p]) == (match p {
            PropertyView::SubscriptionIdentifier(v) => seq![v],
            _ => Seq::<u32>::empty(),
        }),
{
    assert(seq![p].drop_last() =~= Seq::<PropertyView>::empty());
    assert(spec_subscription_identifiers(Seq::<PropertyView>::empty()) == Seq::<u32>::empty());
}

/// An empty list holds no subscription identifiers.
pub broadcast proof fn lemma_subscription_identifiers_nothing()
    ensures
        #[trigger] spec_subscription_identifiers(Seq::<PropertyView>::empty()) == Seq::<u32>::empty(),
{
}

/// The subscription identifiers of two lists, one after the other.
pub broadcast proof fn lemma_subscription_identifiers_pieces(a: Seq<PropertyView>, b: Seq<PropertyView>)
    ensures
        #[trigger] spec_subscription_identifiers(a + b) == spec_subscription_identifiers(a)
            + spec_subscription_identifiers(b),
{
    lemma_subscription_identifiers_concat(a, b);
}

/// Subscription identifiers hold no other property.
pub broadcast proof fn lemma_find_in_subscription_identifiers(ids: Seq<u32>, id: u8)
    requires
        id != 0x0B,
    ensures
        #[trigger] spec_find_property(subscription_identifiers_as_props(ids), id) is None,
    decreases ids.len(),
{
    if ids.len() > 0 {
        lemma_find_in_subscription_identifiers(ids.drop_last(), id);
        assert(subscription_identifiers_as_props(ids).drop_last() =~= subscription_identifiers_as_props(
            ids.drop_last(),
        ));
    }
}

/// Subscription identifiers, as properties, give back the identifiers, and no user properties.
pub broadcast proof fn lemma_subscription_identifiers_block(ids: Seq<u32>)
    ensures
        #[trigger] spec_subscription_identifiers(subscription_identifiers_as_props(ids)) == ids,
        spec_user_properties(subscription_identifiers_as_props(ids)) == Seq::<(Seq<u8>, Seq<u8>)>::empty(),
    decreases ids.len(),
{
    if ids.len() == 0 {
        assert(subscription_identifiers_as_props(ids) =~= Seq::<PropertyView>::empty());
    } else {
        lemma_subscription_identifiers_block(ids.drop_last());
        assert(subscription_identifiers_as_props(ids).drop_last() =~= subscription_identifiers_as_props(
            ids.drop_last(),
        ));
        assert(ids.drop_last().push(ids.last()) =~= ids);
    }
}

pub broadcast group group_property_lists {
    lemma_find_in_subscription_identifiers,
    lemma_subscription_identifiers_block,
    lemma_find_one,
    lemma_find_nothing,
    lemma_find_pieces,
    lemma_find_in_user_block,
    lemma_user_properties_one,
    lemma_user_properties_nothing,
    lemma_user_properties_pieces,
    lemma_user_properties_block,
    lemma_subscription_identifiers_one,
    lemma_subscription_identifiers_nothing,
    lemma_subscription_identifiers_pieces,
}

/// Nothing is found with identifier `id` exactly when no property has it.
pub proof fn lemma_find_absent(ps: Seq<PropertyView>, id: u8)
    ensures
        spec_find_property(ps, id) is None <==> forall|i: int|
            0 <= i < ps.len() ==> property_id(#[trigger] ps[i]) != id,
    decreases ps.len(),
{
    if ps.len() > 0 {
        lemma_find_absent(ps.drop_last(), id);
        if spec_find_property(ps, id) is None {
            assert forall|i: int| 0 <= i < ps.len() implies property_id(#[trigger] ps[i]) != id by {
                if i < ps.len() - 1 {
                    assert(ps[i] == ps.drop_last()[i]);
                }
            }
        } else {
            if property_id(ps.last()) != id {
                let i = choose|i: int|
                    0 <= i < ps.drop_last().len() && property_id(#[trigger] ps.drop_last()[i]) == id;
                assert(ps[i] == ps.drop_last()[i]);
            }
        }
    }
}

/// A list of one well-formed property that the packet takes and that encodes to something can
/// be decoded back.
pub broadcast proof fn lemma_decodable_one(p: PropertyView, allowed: Seq<u8>, repeatable: Seq<u8>)
    requires
        property_wf(p),
        spec_encode_property(p).len() > 0,
        allowed.contains(property_id(p)),
    ensures
        #[trigger] properties_decodable(seq![p], allowed, repeatable),
{
}

/// An empty list can be decoded back.
pub broadcast proof fn lemma_decodable_nothing(allowed: Seq<u8>, repeatable: Seq<u8>)
    ensures
        #[trigger] properties_decodable(Seq::<PropertyView>::empty(), allowed, repeatable),
{
}

/// Well-formed user properties can be decoded back where the packet takes them, and lets them
/// repeat.
pub broadcast proof fn lemma_decodable_user_block(
    u: Seq<(Seq<u8>, Seq<u8>)>,
    allowed: Seq<u8>,
    repeatable: Seq<u8>,
)
    requires
        user_properties_wf(u),
        allowed.contains(0x26),
        repeatable.contains(0x26),
    ensures
        #[trigger] properties_decodable(user_properties_as_props(u), allowed, repeatable),
{
    let ps = user_properties_as_props(u);
    assert forall|i: int| 0 <= i < ps.len() implies property_wf(#[trigger] ps[i])
        && spec_encode_property(ps[i]).len() > 0 && allowed.contains(property_id(ps[i]))
        && property_id(ps[i]) == 0x26 by {
        assert(ps[i] == PropertyView::UserProperty(u[i].0, u[i].1));
    }
}

/// Two lists that can each be decoded back can be, one after the other, when no property of
/// the second that may occur only once has its identifier in the first.
pub broadcast proof fn lemma_decodable_pieces(
    a: Seq<PropertyView>,
    b: Seq<PropertyView>,
    allowed: Seq<u8>,
    repeatable: Seq<u8>,
)
    requires
        properties_decodable(a, allowed, repeatable),
        properties_decodable(b, allowed, repeatable),
        forall|j: int|
            0 <= j < b.len() && !repeatable.contains(property_id(b[j])) ==> (#[trigger] spec_find_property(
                a,
                property_id(b[j]),
            )) is None,
    ensures
        #[trigger] properties_decodable(a + b, allowed, repeatable),
{
    let ps = a + b;
    assert forall|i: int| 0 <= i < ps.len() implies property_wf(#[trigger] ps[i])
        && spec_encode_property(ps[i]).len() > 0 && allowed.contains(property_id(ps[i])) by {
        if i < a.len() {
            assert(ps[i] == a[i]);
        } else {
            assert(ps[i] == b[i - a.len()]);
        }
    }
    assert forall|i: int, j: int|
        0 <= i < j < ps.len() && !repeatable.contains(property_id(#[trigger] ps[i])) implies property_id(
        ps[i]) != property_id(#[trigger] ps[j]) by {
        if j < a.len() {
            assert(ps[i] == a[i]);
            assert(ps[j] == a[j]);
        } else if i >= a.len() {
            assert(ps[i] == b[i - a.len()]);
            assert(ps[j] == b[j - a.len()]);
        } else {
            assert(ps[i] == a[i]);
            assert(ps[j] == b[j - a.len()]);
            if property_id(a[i]) == property_id(b[j - a.len()]) {
                assert(spec_find_property(a, property_id(b[j - a.len()])) is None);
                lemma_find_absent(a, property_id(b[j - a.len()]));
                assert(property_id(a[i]) != property_id(b[j - a.len()]));
            }
        }
    }
}

/// Subscription identifiers that fit a variable byte integer can be decoded back where the
/// packet takes them, and lets them repeat.
pub broadcast proof fn lemma_decodable_subscription_identifiers(
    ids: Seq<u32>,
    allowed: Seq<u8>,
    repeatable: Seq<u8>,
)
    requires
        forall|i: int| 0 <= i < ids.len() ==> #[trigger] ids[i] <= VARINT_MAX,
        allowed.contains(0x0B),
        repeatable.contains(0x0B),
    ensures
        #[trigger] properties_decodable(subscription_identifiers_as_props(ids), allowed, repeatable),
{
    let ps = subscription_identifiers_as_props(ids);
    assert forall|i: int| 0 <= i < ps.len() implies property_wf(#[trigger] ps[i])
        && spec_encode_property(ps[i]).len() > 0 && allowed.contains(property_id(ps[i]))
        && property_id(ps[i]) == 0x0B by {
        assert(ps[i] == PropertyView::SubscriptionIdentifier(ids[i]));
    }
}

pub broadcast group group_decodable_pieces {
    lemma_decodable_subscription_identifiers,
    lemma_decodable_one,
    lemma_decodable_nothing,
    lemma_decodable_user_block,
    lemma_decodable_pieces,
}

} // verus!
