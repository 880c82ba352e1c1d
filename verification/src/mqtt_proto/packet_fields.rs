//! Moving values between the fields of packets and their properties.
use vstd::prelude::*;

use crate::buffer_pool::{self, Owned};
use crate::mqtt_proto::binary_data::{is_length_prefixed, BinaryData};
use crate::mqtt_proto::byte_str::{is_byte_str, ByteStr};
use crate::mqtt_proto::properties::{
    find_property, is_str_id, property_id, props_view, spec_find_property,
    spec_subscription_identifiers, spec_user_properties, str_property, user_properties_as_props,
    user_properties_view, Property, PropertyView,
};
use crate::mqtt_proto::codes::QoS;
use crate::mqtt_proto::property::{opt_view, CorrelationData, KeepAlive, NonZeroU16, NonZeroU32, SessionExpiryInterval};
use crate::mqtt_proto::topic::Topic;

verus! {

broadcast use crate::mqtt_proto::property::group_nonzero;

/// The found property has the identifier that was looked for.
pub proof fn lemma_find_property_id(ps: Seq<PropertyView>, id: u8)
    ensures
        spec_find_property(ps, id) matches Some(p) ==> property_id(p) == id,
    decreases ps.len(),
{
    if ps.len() > 0 && property_id(ps.last()) != id {
        lemma_find_property_id(ps.drop_last(), id);
    }
}

/// The bytes of a string, binary data or topic property.
pub open spec fn prop_bytes(p: PropertyView) -> Seq<u8> {
    match p {
        PropertyView::AssignedClientIdentifier(raw) => raw,
        PropertyView::AuthenticationData(raw) => raw,
        PropertyView::AuthenticationMethod(raw) => raw,
        PropertyView::ContentType(raw) => raw,
        PropertyView::CorrelationData(c) => c,
        PropertyView::ReasonString(raw) => raw,
        PropertyView::ResponseInformation(raw) => raw,
        PropertyView::ResponseTopic(raw) => raw,
        PropertyView::ServerReference(raw) => raw,
        _ => Seq::empty(),
    }
}

/// The bytes of the property of `ps` with identifier `id`, if there is one.
pub open spec fn find_bytes(ps: Seq<PropertyView>, id: u8) -> Option<Seq<u8>> {
    match spec_find_property(ps, id) {
        Some(p) => Some(prop_bytes(p)),
        None => None,
    }
}

/// The string property of `ps` with identifier `id`, if there is one.
pub fn take_str_property(ps: &Vec<Property>, id: u8) -> (r: Option<ByteStr>)
    requires
        is_str_id(id),
    ensures
        opt_view(r) == find_bytes(props_view(ps@), id),
{
    proof {
        lemma_find_property_id(props_view(ps@), id);
    }
    match find_property(ps, id) {
        Some(Property::AssignedClientIdentifier(s)) => Some(s.clone()),
        Some(Property::AuthenticationMethod(s)) => Some(s.clone()),
        Some(Property::ContentType(s)) => Some(s.clone()),
        Some(Property::ReasonString(s)) => Some(s.clone()),
        Some(Property::ResponseInformation(s)) => Some(s.clone()),
        Some(Property::ServerReference(s)) => Some(s.clone()),
        _ => None,
    }
}

/// The authentication data property of `ps`, if there is one.
pub fn take_authentication_data(ps: &Vec<Property>) -> (r: Option<BinaryData>)
    ensures
        opt_view(r) == find_bytes(props_view(ps@), 0x16),
{
    proof {
        lemma_find_property_id(props_view(ps@), 0x16);
    }
    match find_property(ps, 0x16) {
        Some(Property::AuthenticationData(b)) => Some(b.clone()),
        _ => None,
    }
}

/// The string property with identifier `id` holding `o`, if `o` holds a string.
pub open spec fn opt_str_prop(o: Option<Seq<u8>>, id: u8) -> Seq<PropertyView> {
    match o {
        Some(raw) => seq![str_property(id, raw)],
        None => Seq::empty(),
    }
}

/// Appends the string property with identifier `id` holding `o`, if `o` holds a string.
pub fn push_str_property(ps: &mut Vec<Property>, o: &Option<ByteStr>, id: u8)
    requires
        is_str_id(id),
    ensures
        props_view(final(ps)@) == props_view(old(ps)@) + opt_str_prop(opt_view(*o), id),
{
    match o {
        Some(s) => {
            let s2 = s.clone();
            let p = if id == 0x03 {
                Property::ContentType(s2)
            } else if id == 0x12 {
                Property::AssignedClientIdentifier(s2)
            } else if id == 0x15 {
                Property::AuthenticationMethod(s2)
            } else if id == 0x1A {
                Property::ResponseInformation(s2)
            } else if id == 0x1C {
                Property::ServerReference(s2)
            } else {
                Property::ReasonString(s2)
            };
            ps.push(p);
            proof {
                assert(props_view(ps@) =~= props_view(old(ps)@) + opt_str_prop(opt_view(*o), id));
            }
        },
        None => {
            proof {
                assert(props_view(ps@) =~= props_view(old(ps)@) + opt_str_prop(opt_view(*o), id));
            }
        },
    }
}

/// Whether every pair of `u` holds two length-prefixed UTF-8 strings.
pub open spec fn user_properties_wf(u: Seq<(Seq<u8>, Seq<u8>)>) -> bool {
    forall|i: int| 0 <= i < u.len() ==> is_byte_str(#[trigger] u[i].0) && is_byte_str(u[i].1)
}

/// Whether an optional string is a length-prefixed UTF-8 string.
pub open spec fn opt_str_wf(o: Option<Seq<u8>>) -> bool {
    o matches Some(raw) ==> is_byte_str(raw)
}

/// Whether optional binary data is length-prefixed.
pub open spec fn opt_binary_wf(o: Option<Seq<u8>>) -> bool {
    o matches Some(raw) ==> is_length_prefixed(raw)
}

/// User properties built by the library hold valid strings.
pub fn user_properties_are_wf(u: &Vec<(ByteStr, ByteStr)>)
    ensures
        user_properties_wf(user_properties_view(u@)),
{
    let mut i: usize = 0;
    while i < u.len()
        invariant
            i <= u@.len(),
            forall|j: int|
                0 <= j < i ==> is_byte_str(#[trigger] user_properties_view(u@)[j].0)
                    && is_byte_str(user_properties_view(u@)[j].1),
        decreases u@.len() - i,
    {
        let (n, v) = &u[i];
        proof {
            use_type_invariant(n);
            use_type_invariant(v);
        }
        i = i + 1;
    }
}

/// An optional string built by the library is valid.
pub fn opt_str_is_wf(o: &Option<ByteStr>)
    ensures
        opt_str_wf(opt_view(*o)),
{
    if let Some(s) = o {
        proof {
            use_type_invariant(s);
        }
    }
}

/// Copies user properties into new buffers taken from `owned`.
pub fn user_properties_to_shared(u: &Vec<(ByteStr, ByteStr)>, owned: &mut Owned) -> (r: Result<
    Vec<(ByteStr, ByteStr)>,
    buffer_pool::Error,
>)
    requires
        old(owned)@.0.len() == 0,
    ensures
        r matches Ok(v) && user_properties_view(v@) == user_properties_view(u@),
        final(owned)@.0.len() == 0,
{
    let mut out: Vec<(ByteStr, ByteStr)> = Vec::new();
    let mut i: usize = 0;
    while i < u.len()
        invariant
            i <= u@.len(),
            owned@.0.len() == 0,
            user_properties_view(out@) == user_properties_view(u@).take(i as int),
        decreases u@.len() - i,
    {
        let ghost prev = out@;
        let (n, v) = &u[i];
        let n2 = n.to_shared(owned)?;
        let v2 = v.to_shared(owned)?;
        out.push((n2, v2));
        proof {
            assert(user_properties_view(out@) =~= user_properties_view(prev).push((n@, v@)));
            assert(user_properties_view(u@)[i as int] == (n@, v@));
            assert(user_properties_view(out@) =~= user_properties_view(u@).take(i + 1));
        }
        i = i + 1;
    }
    proof {
        assert(user_properties_view(u@).take(i as int) =~= user_properties_view(u@));
    }
    Ok(out)
}

/// Copies an optional string into a new buffer taken from `owned`.
pub fn opt_str_to_shared(o: &Option<ByteStr>, owned: &mut Owned) -> (r: Result<
    Option<ByteStr>,
    buffer_pool::Error,
>)
    requires
        old(owned)@.0.len() == 0,
    ensures
        r matches Ok(v) && opt_view(v) == opt_view(*o),
        final(owned)@.0.len() == 0,
{
    match o {
        Some(s) => Ok(Some(s.to_shared(owned)?)),
        None => Ok(None),
    }
}

/// Copies user properties, sharing their buffers.
pub fn clone_user_properties(u: &Vec<(ByteStr, ByteStr)>) -> (r: Vec<(ByteStr, ByteStr)>)
    ensures
        user_properties_view(r@) == user_properties_view(u@),
{
    let mut out: Vec<(ByteStr, ByteStr)> = Vec::new();
    let mut i: usize = 0;
    while i < u.len()
        invariant
            i <= u@.len(),
            user_properties_view(out@) == user_properties_view(u@).take(i as int),
        decreases u@.len() - i,
    {
        let ghost prev = out@;
        let (n, v) = &u[i];
        out.push((n.clone(), v.clone()));
        proof {
            assert(user_properties_view(out@) =~= user_properties_view(prev).push((n@, v@)));
            assert(user_properties_view(u@)[i as int] == (n@, v@));
            assert(user_properties_view(out@) =~= user_properties_view(u@).take(i + 1));
        }
        i = i + 1;
    }
    proof {
        assert(user_properties_view(u@).take(i as int) =~= user_properties_view(u@));
    }
    out
}

/// Copies an optional string, sharing its buffer.
pub fn clone_opt_str(o: &Option<ByteStr>) -> (r: Option<ByteStr>)
    ensures
        opt_view(r) == opt_view(*o),
{
    match o {
        Some(s) => Some(s.clone()),
        None => None,
    }
}

/// No user properties.
pub fn no_user_properties() -> (r: Vec<(ByteStr, ByteStr)>)
    ensures
        user_properties_view(r@) == Seq::<(Seq<u8>, Seq<u8>)>::empty(),
        r@.len() == 0,
{
    let r: Vec<(ByteStr, ByteStr)> = Vec::new();
    proof {
        assert(user_properties_view(r@) =~= Seq::<(Seq<u8>, Seq<u8>)>::empty());
    }
    r
}

// ---------------------------------------------------------------------------------------------
// Facts about finding values in property lists
// ---------------------------------------------------------------------------------------------

/// The user properties of two lists, one after the other.
pub proof fn lemma_user_properties_concat(a: Seq<PropertyView>, b: Seq<PropertyView>)
    ensures
        spec_user_properties(a + b) == spec_user_properties(a) + spec_user_properties(b),
    decreases b.len(),
{
    if b.len() == 0 {
        assert(a + b =~= a);
        assert(spec_user_properties(a) + spec_user_properties(b) =~= spec_user_properties(a));
    } else {
        assert((a + b).drop_last() =~= a + b.drop_last());
        assert((a + b).last() == b.last());
        lemma_user_properties_concat(a, b.drop_last());
        match b.last() {
            PropertyView::UserProperty(n, v) => {
                assert(spec_user_properties(a) + spec_user_properties(b.drop_last()).push((n, v))
                    =~= (spec_user_properties(a) + spec_user_properties(b.drop_last())).push((n, v)));
            },
            _ => {},
        }
    }
}

/// User properties, as properties, give back the user properties.
pub proof fn lemma_user_properties_of_props(u: Seq<(Seq<u8>, Seq<u8>)>)
    ensures
        spec_user_properties(user_properties_as_props(u)) == u,
        forall|id: u8| id != 0x26 ==> (#[trigger] spec_find_property(user_properties_as_props(u), id)) is None,
        spec_subscription_identifiers(user_properties_as_props(u)) == Seq::<u32>::empty(),
    decreases u.len(),
{
    if u.len() == 0 {
        assert(user_properties_as_props(u) =~= Seq::<PropertyView>::empty());
    } else {
        lemma_user_properties_of_props(u.drop_last());
        assert(user_properties_as_props(u).drop_last() =~= user_properties_as_props(u.drop_last()));
        assert(u.drop_last().push(u.last()) =~= u);
        assert forall|id: u8| id != 0x26 implies (#[trigger] spec_find_property(
            user_properties_as_props(u),
            id,
        )) is None by {
            assert(spec_find_property(user_properties_as_props(u.drop_last()), id) is None);
        }
    }
}

/// The last property with identifier `id` of two lists, one after the other.
pub proof fn lemma_find_property_concat(a: Seq<PropertyView>, b: Seq<PropertyView>, id: u8)
    ensures
        spec_find_property(a + b, id) == (if spec_find_property(b, id) is Some {
            spec_find_property(b, id)
        } else {
            spec_find_property(a, id)
        }),
    decreases b.len(),
{
    if b.len() == 0 {
        assert(a + b =~= a);
    } else {
        assert((a + b).drop_last() =~= a + b.drop_last());
        assert((a + b).last() == b.last());
        lemma_find_property_concat(a, b.drop_last(), id);
    }
}

/// The subscription identifiers of two lists, one after the other.
pub proof fn lemma_subscription_identifiers_concat(a: Seq<PropertyView>, b: Seq<PropertyView>)
    ensures
        spec_subscription_identifiers(a + b) == spec_subscription_identifiers(a)
            + spec_subscription_identifiers(b),
    decreases b.len(),
{
    if b.len() == 0 {
        assert(a + b =~= a);
        assert(spec_subscription_identifiers(a) + spec_subscription_identifiers(b)
            =~= spec_subscription_identifiers(a));
    } else {
        assert((a + b).drop_last() =~= a + b.drop_last());
        assert((a + b).last() == b.last());
        lemma_subscription_identifiers_concat(a, b.drop_last());
        match b.last() {
            PropertyView::SubscriptionIdentifier(v) => {
                assert(spec_subscription_identifiers(a) + spec_subscription_identifiers(b.drop_last()).push(v)
                    =~= (spec_subscription_identifiers(a) + spec_subscription_identifiers(b.drop_last())).push(v));
            },
            _ => {},
        }
    }
}

/// A list of at most one property.
pub proof fn lemma_single_property(o: Seq<PropertyView>, id: u8)
    requires
        o.len() <= 1,
        !(o.len() == 1 && o[0] is UserProperty),
        !(o.len() == 1 && o[0] is SubscriptionIdentifier),
    ensures
        spec_user_properties(o) == Seq::<(Seq<u8>, Seq<u8>)>::empty(),
        spec_subscription_identifiers(o) == Seq::<u32>::empty(),
        spec_find_property(o, id) == (if o.len() == 1 && property_id(o[0]) == id {
            Some(o[0])
        } else {
            None
        }),
{
    if o.len() == 1 {
        assert(o.drop_last() =~= Seq::<PropertyView>::empty());
        assert(spec_user_properties(o.drop_last()) == Seq::<(Seq<u8>, Seq<u8>)>::empty());
        assert(spec_subscription_identifiers(o.drop_last()) == Seq::<u32>::empty());
        assert(spec_find_property(o.drop_last(), id) is None);
        assert(o.last() == o[0]);
    }
}

// ---------------------------------------------------------------------------------------------
// Values of other kinds
// ---------------------------------------------------------------------------------------------

/// The integer of an integer property.
pub open spec fn prop_int(p: PropertyView) -> u32 {
    match p {
        PropertyView::MaximumPacketSize(v) => v,
        PropertyView::MessageExpiryInterval(v) => v,
        PropertyView::WillDelayInterval(v) => v,
        PropertyView::SubscriptionIdentifier(v) => v,
        PropertyView::ReceiveMaximum(v) => v as u32,
        PropertyView::TopicAlias(v) => v as u32,
        PropertyView::TopicAliasMaximum(v) => v as u32,
        _ => 0,
    }
}

/// The boolean of a boolean property.
pub open spec fn prop_bool(p: PropertyView) -> bool {
    match p {
        PropertyView::PayloadIsUtf8(b) => b,
        PropertyView::RequestProblemInformation(b) => b,
        PropertyView::RequestResponseInformation(b) => b,
        PropertyView::RetainAvailable(b) => b,
        PropertyView::SharedSubscriptionAvailable(b) => b,
        PropertyView::SubscriptionIdentifiersAvailable(b) => b,
        PropertyView::WildcardSubscriptionAvailable(b) => b,
        _ => false,
    }
}

/// The integer of the integer property of `ps` with identifier `id`, if there is one.
pub open spec fn find_int(ps: Seq<PropertyView>, id: u8) -> Option<u32> {
    match spec_find_property(ps, id) {
        Some(p) => Some(prop_int(p)),
        None => None,
    }
}

/// The boolean of the boolean property of `ps` with identifier `id`, if there is one.
pub open spec fn find_bool(ps: Seq<PropertyView>, id: u8) -> Option<bool> {
    match spec_find_property(ps, id) {
        Some(p) => Some(prop_bool(p)),
        None => None,
    }
}

/// The session expiry interval property of `ps`, if there is one.
pub open spec fn find_session_expiry(ps: Seq<PropertyView>) -> Option<SessionExpiryInterval> {
    match spec_find_property(ps, 0x11) {
        Some(PropertyView::SessionExpiryInterval(i)) => Some(i),
        _ => None,
    }
}

/// The server keep alive property of `ps`, if there is one.
pub open spec fn find_keep_alive(ps: Seq<PropertyView>) -> Option<KeepAlive> {
    match spec_find_property(ps, 0x13) {
        Some(PropertyView::ServerKeepAlive(k)) => Some(k),
        _ => None,
    }
}

/// The maximum QoS property of `ps`, if there is one.
pub open spec fn find_qos(ps: Seq<PropertyView>) -> Option<QoS> {
    match spec_find_property(ps, 0x24) {
        Some(PropertyView::MaximumQoS(q)) => Some(q),
        _ => None,
    }
}

/// The receive maximum (`0x21`) or topic alias (`0x23`) of `ps`, if there is one.
pub fn take_nonzero_u16_property(ps: &Vec<Property>, id: u8) -> (r: Option<NonZeroU16>)
    requires
        id == 0x21 || id == 0x23,
    ensures
        match r {
            Some(n) => find_int(props_view(ps@), id) == Some(n@ as u32),
            None => find_int(props_view(ps@), id) is None,
        },
{
    proof {
        lemma_find_property_id(props_view(ps@), id);
    }
    match find_property(ps, id) {
        Some(Property::ReceiveMaximum(n)) => Some(*n),
        Some(Property::TopicAlias(n)) => Some(*n),
        _ => None,
    }
}

/// The maximum packet size (`0x27`) of `ps`, if there is one.
pub fn take_maximum_packet_size(ps: &Vec<Property>) -> (r: Option<NonZeroU32>)
    ensures
        match r {
            Some(n) => find_int(props_view(ps@), 0x27) == Some(n@),
            None => find_int(props_view(ps@), 0x27) is None,
        },
{
    proof {
        lemma_find_property_id(props_view(ps@), 0x27);
    }
    match find_property(ps, 0x27) {
        Some(Property::MaximumPacketSize(n)) => Some(*n),
        _ => None,
    }
}

/// The integer property of `ps` with identifier `id`, if there is one.
pub fn take_int_property(ps: &Vec<Property>, id: u8) -> (r: Option<u32>)
    ensures
        r == find_int(props_view(ps@), id),
{
    match find_property(ps, id) {
        Some(p) => Some(
            match p {
                Property::MaximumPacketSize(v) => v.get(),
                Property::MessageExpiryInterval(v) => *v,
                Property::WillDelayInterval(v) => *v,
                Property::SubscriptionIdentifier(v) => *v,
                Property::ReceiveMaximum(v) => v.get() as u32,
                Property::TopicAlias(v) => v.get() as u32,
                Property::TopicAliasMaximum(v) => *v as u32,
                _ => 0,
            },
        ),
        None => None,
    }
}

/// The boolean property of `ps` with identifier `id`, if there is one.
pub fn take_bool_property(ps: &Vec<Property>, id: u8) -> (r: Option<bool>)
    ensures
        r == find_bool(props_view(ps@), id),
{
    match find_property(ps, id) {
        Some(p) => Some(
            match p {
                Property::PayloadIsUtf8(b) => *b,
                Property::RequestProblemInformation(b) => *b,
                Property::RequestResponseInformation(b) => *b,
                Property::RetainAvailable(b) => *b,
                Property::SharedSubscriptionAvailable(b) => *b,
                Property::SubscriptionIdentifiersAvailable(b) => *b,
                Property::WildcardSubscriptionAvailable(b) => *b,
                _ => false,
            },
        ),
        None => None,
    }
}

/// The session expiry interval property of `ps`, if there is one.
pub fn take_session_expiry(ps: &Vec<Property>) -> (r: Option<SessionExpiryInterval>)
    ensures
        r == find_session_expiry(props_view(ps@)),
{
    match find_property(ps, 0x11) {
        Some(Property::SessionExpiryInterval(i)) => Some(*i),
        _ => None,
    }
}

/// The server keep alive property of `ps`, if there is one.
pub fn take_keep_alive(ps: &Vec<Property>) -> (r: Option<KeepAlive>)
    ensures
        r == find_keep_alive(props_view(ps@)),
{
    match find_property(ps, 0x13) {
        Some(Property::ServerKeepAlive(k)) => Some(*k),
        _ => None,
    }
}

/// The maximum QoS property of `ps`, if there is one.
pub fn take_qos(ps: &Vec<Property>) -> (r: Option<QoS>)
    ensures
        r == find_qos(props_view(ps@)),
{
    match find_property(ps, 0x24) {
        Some(Property::MaximumQoS(q)) => Some(*q),
        _ => None,
    }
}

/// The property holding `o`, if `o` holds a value.
pub open spec fn opt_prop(o: Option<PropertyView>) -> Seq<PropertyView> {
    match o {
        Some(p) => seq![p],
        None => Seq::empty(),
    }
}

/// The response topic property of `ps`, if there is one.
pub fn take_response_topic(ps: &Vec<Property>) -> (r: Option<Topic>)
    ensures
        opt_view(r) == find_bytes(props_view(ps@), 0x08),
{
    proof {
        lemma_find_property_id(props_view(ps@), 0x08);
    }
    match find_property(ps, 0x08) {
        Some(Property::ResponseTopic(t)) => Some(t.clone()),
        _ => None,
    }
}

/// The correlation data property of `ps`, if there is one.
pub fn take_correlation_data(ps: &Vec<Property>) -> (r: Option<CorrelationData>)
    ensures
        opt_view(r) == find_bytes(props_view(ps@), 0x09),
{
    proof {
        lemma_find_property_id(props_view(ps@), 0x09);
    }
    match find_property(ps, 0x09) {
        Some(Property::CorrelationData(c)) => Some(c.clone()),
        _ => None,
    }
}

} // verus!
