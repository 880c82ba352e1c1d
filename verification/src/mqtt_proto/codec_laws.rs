//! Laws of the codec: decoding what was encoded gives it back.
use vstd::prelude::*;

use crate::mqtt_proto::auth::{authentication_props, authentication_wf, spec_authentication_of};
use crate::mqtt_proto::codes::{ConnectionRefusedReason, QoS};
use crate::mqtt_proto::connack::{
    connack_allowed, connack_default_properties, connack_features, connack_info, connack_limits,
    connack_properties, connack_properties_from, connack_references, prop_if, spec_decode_connack,
    spec_encode_connack, ConnAckOtherPropertiesView, ConnAckView, ConnectReasonCode,
};
use crate::mqtt_proto::packet_fields::{
    find_bool, find_bytes, find_int, find_keep_alive, find_qos, find_session_expiry, opt_prop,
    opt_str_prop, opt_str_wf, user_properties_wf,
};
use crate::mqtt_proto::properties::{
    properties_decodable, spec_encode_properties, spec_find_property, spec_user_properties,
    user_properties_as_props, user_properties_repeat, PropertyView,
};
use crate::mqtt_proto::property::{KeepAlive, SessionExpiryInterval};
use crate::mqtt_proto::property_lists::{group_decodable_pieces, group_property_lists};
use crate::mqtt_proto::publish::{
    publish_allowed, publish_default_properties, publish_dup, publish_properties,
    publish_properties_from, publish_qos_bits, publish_repeat, publish_retain,
    spec_decode_publish, spec_encode_publish, subscription_identifiers_as_props,
    PublishOtherPropertiesView, PublishView,
};
use crate::mqtt_proto::byte_str::is_byte_str;
use crate::mqtt_proto::topic::spec_check_topic;
use crate::mqtt_proto::properties::spec_subscription_identifiers;
use crate::mqtt_proto::codes::SubscribeReasonCode;
use crate::mqtt_proto::suback::{
    spec_decode_reason_codes, spec_decode_suback, spec_encode_reason_codes, spec_encode_suback,
    suback_allowed, suback_properties, SubAckView,
};
use crate::mqtt_proto::filter::{spec_decode_filter, spec_filter_new, FilterKind};
use crate::mqtt_proto::unsubscribe::{
    spec_decode_filter_list, spec_decode_unsubscribe, spec_encode_filter_list,
    spec_encode_unsubscribe, unsubscribe_allowed, UnsubscribeView,
};
use crate::mqtt_proto::subscribe::{
    spec_decode_subscribe, spec_decode_subscribe_to, spec_decode_subscribe_to_list,
    spec_encode_subscribe, spec_encode_subscribe_to, spec_encode_subscribe_to_list,
    spec_subscribe_options_byte, subscribe_allowed, subscribe_options_default,
    subscribe_properties, SubscribeOptions, SubscribeOtherPropertiesView, SubscribeView,
};
use crate::mqtt_proto::auth::AuthView;
use crate::mqtt_proto::codes::{DisconnectReasonCode, PubAckReasonCode, PubCompReasonCode};
use crate::mqtt_proto::disconnect::{disconnect_view, DisconnectView};
use crate::mqtt_proto::packet::{
    packet_encodable_for, packet_fits, spec_decode_full, spec_encode_body, spec_encode_packet,
    spec_first_byte, spec_publish_flags, PacketView,
};
use crate::mqtt_proto::puback::{puback_view, PubAckView};
use crate::mqtt_proto::pubcomp::{pubcomp_view, PubCompView};
use crate::mqtt_proto::pubrec::pubrec_view;
use crate::mqtt_proto::pubrel::pubrel_view;
use crate::mqtt_proto::unsuback::unsuback_view;
use crate::mqtt_proto::codes::{PubRecReasonCode, PubRelReasonCode};
use crate::mqtt_proto::{DecodeErrorView, ProtocolVersion, VARINT_MAX};

verus! {

broadcast use crate::mqtt_proto::property::group_nonzero;

// ---------------------------------------------------------------------------------------------
// CONNACK
// ---------------------------------------------------------------------------------------------

/// The reason code a v3 CONNACK carries for `rc`: a refusal that v3 has no code for becomes
/// "server unavailable".
pub open spec fn v3_reason_code(rc: ConnectReasonCode) -> ConnectReasonCode {
    match rc {
        ConnectReasonCode::Refused(r) => match r {
            ConnectionRefusedReason::UnsupportedProtocolVersion => rc,
            ConnectionRefusedReason::ClientIdentifierNotValid => rc,
            ConnectionRefusedReason::BadUserNameOrPassword => rc,
            ConnectionRefusedReason::NotAuthorized => rc,
            _ => ConnectReasonCode::Refused(ConnectionRefusedReason::ServerUnavailable),
        },
        _ => rc,
    }
}

/// Whether the properties of a CONNACK can be encoded and decoded back: its strings are
/// length-prefixed UTF-8, and the values that may not be 0 are not.
pub open spec fn connack_properties_wf(v: ConnAckOtherPropertiesView) -> bool {
    &&& v.session_expiry_interval matches Some(SessionExpiryInterval::Duration(d)) ==> d != u32::MAX
    &&& v.receive_maximum != 0
    &&& v.maximum_packet_size != 0
    &&& opt_str_wf(v.assigned_client_id)
    &&& opt_str_wf(v.reason_string)
    &&& user_properties_wf(v.user_properties)
    &&& v.server_keep_alive matches Some(KeepAlive::Duration(d)) ==> d@ != 0
    &&& opt_str_wf(v.response_information)
    &&& opt_str_wf(v.server_reference)
    &&& authentication_wf(v.authentication)
}

/// Whether the identifiers of a CONNACK's properties are all taken by it.
proof fn lemma_connack_allowed()
    ensures
        forall|id: u8|
            id == 0x11 || id == 0x21 || id == 0x24 || id == 0x25 || id == 0x27 || id == 0x12 || id
                == 0x22 || id == 0x1F || id == 0x26 || id == 0x28 || id == 0x2A || id == 0x29 || id
                == 0x13 || id == 0x1A || id == 0x1C || id == 0x15 || id == 0x16 ==> #[trigger] connack_allowed().contains(id),
{
    let al = connack_allowed();
    assert(al[0] == 0x11 && al[1] == 0x21 && al[2] == 0x24 && al[3] == 0x25 && al[4] == 0x27);
    assert(al[5] == 0x12 && al[6] == 0x22 && al[7] == 0x1F && al[8] == 0x26 && al[9] == 0x28);
    assert(al[10] == 0x2A && al[11] == 0x29 && al[12] == 0x13 && al[13] == 0x1A && al[14] == 0x1C);
    assert(al[15] == 0x15 && al[16] == 0x16);
}

/// The limits of a well-formed CONNACK, as properties.
#[verifier::rlimit(40)]
proof fn lemma_connack_limits(v: ConnAckOtherPropertiesView)
    requires
        connack_properties_wf(v),
    ensures
        properties_decodable(connack_limits(v), connack_allowed(), user_properties_repeat()),
        find_session_expiry(connack_limits(v)) == v.session_expiry_interval,
        find_int(connack_limits(v), 0x21) == (if v.receive_maximum < u16::MAX {
            Some(v.receive_maximum as u32)
        } else {
            None
        }),
        find_qos(connack_limits(v)) == (if v.maximum_qos is ExactlyOnce {
            None
        } else {
            Some(v.maximum_qos)
        }),
        find_bool(connack_limits(v), 0x25) == (if v.retain_available {
            None
        } else {
            Some(false)
        }),
        find_int(connack_limits(v), 0x27) == (if v.maximum_packet_size < u32::MAX {
            Some(v.maximum_packet_size)
        } else {
            None
        }),
        forall|id: u8|
            !(id == 0x11 || id == 0x21 || id == 0x24 || id == 0x25 || id == 0x27) ==> (
            #[trigger] spec_find_property(connack_limits(v), id)) is None,
        spec_user_properties(connack_limits(v)) == Seq::<(Seq<u8>, Seq<u8>)>::empty(),
{
    broadcast use group_property_lists, group_decodable_pieces;

    lemma_connack_allowed();
    crate::mqtt_proto::properties::lemma_user_properties_repeat();
    let al = connack_allowed();
    let rep = user_properties_repeat();
    let a1 = opt_prop(
        match v.session_expiry_interval {
            Some(i) => Some(PropertyView::SessionExpiryInterval(i)),
            None => None,
        },
    );
    let a2 = prop_if(v.receive_maximum < u16::MAX, PropertyView::ReceiveMaximum(v.receive_maximum));
    let a3 = prop_if(!(v.maximum_qos is ExactlyOnce), PropertyView::MaximumQoS(v.maximum_qos));
    let a4 = prop_if(!v.retain_available, PropertyView::RetainAvailable(false));
    let a5 = prop_if(
        v.maximum_packet_size < u32::MAX,
        PropertyView::MaximumPacketSize(v.maximum_packet_size),
    );
    assert(connack_limits(v) == a1 + a2 + a3 + a4 + a5);
    assert(properties_decodable(a1, al, rep));
    assert(properties_decodable(a2, al, rep));
    assert(properties_decodable(a3, al, rep)) by {
        if !(v.maximum_qos is ExactlyOnce) {
            assert(crate::mqtt_proto::properties::spec_encode_property(PropertyView::MaximumQoS(v.maximum_qos)).len() > 0);
        }
    }
    assert(properties_decodable(a4, al, rep));
    assert(properties_decodable(a5, al, rep));
    assert(properties_decodable(a1 + a2, al, rep));
    assert(properties_decodable(a1 + a2 + a3, al, rep));
    assert(properties_decodable(a1 + a2 + a3 + a4, al, rep));
    assert(properties_decodable(a1 + a2 + a3 + a4 + a5, al, rep));
}

/// The client identifier, topic alias limit, reason string and user properties of a
/// well-formed CONNACK, as properties.
proof fn lemma_connack_info(v: ConnAckOtherPropertiesView)
    requires
        connack_properties_wf(v),
    ensures
        properties_decodable(connack_info(v), connack_allowed(), user_properties_repeat()),
        find_bytes(connack_info(v), 0x12) == v.assigned_client_id,
        find_int(connack_info(v), 0x22) == (if v.topic_alias_maximum > 0 {
            Some(v.topic_alias_maximum as u32)
        } else {
            None
        }),
        find_bytes(connack_info(v), 0x1F) == v.reason_string,
        forall|id: u8|
            !(id == 0x12 || id == 0x22 || id == 0x1F || id == 0x26) ==> (
            #[trigger] spec_find_property(connack_info(v), id)) is None,
        spec_user_properties(connack_info(v)) == v.user_properties,
{
    broadcast use group_property_lists, group_decodable_pieces;

    lemma_connack_allowed();
    crate::mqtt_proto::properties::lemma_user_properties_repeat();
    let e = Seq::<(Seq<u8>, Seq<u8>)>::empty();
    assert(e + e + e + v.user_properties =~= v.user_properties);
}

/// The features and keep alive of a well-formed CONNACK, as properties.
proof fn lemma_connack_features(v: ConnAckOtherPropertiesView)
    requires
        connack_properties_wf(v),
    ensures
        properties_decodable(connack_features(v), connack_allowed(), user_properties_repeat()),
        find_bool(connack_features(v), 0x28) == (if v.wildcard_subscription_available {
            None
        } else {
            Some(false)
        }),
        find_bool(connack_features(v), 0x2A) == (if v.shared_subscription_available {
            None
        } else {
            Some(false)
        }),
        find_bool(connack_features(v), 0x29) == (if v.subscription_identifiers_available {
            None
        } else {
            Some(false)
        }),
        find_keep_alive(connack_features(v)) == v.server_keep_alive,
        forall|id: u8|
            !(id == 0x28 || id == 0x2A || id == 0x29 || id == 0x13) ==> (
            #[trigger] spec_find_property(connack_features(v), id)) is None,
        spec_user_properties(connack_features(v)) == Seq::<(Seq<u8>, Seq<u8>)>::empty(),
{
    broadcast use group_property_lists, group_decodable_pieces;

    lemma_connack_allowed();
    crate::mqtt_proto::properties::lemma_user_properties_repeat();
}

/// The response information, server reference and authentication of a well-formed CONNACK, as
/// properties.
proof fn lemma_connack_references(v: ConnAckOtherPropertiesView)
    requires
        connack_properties_wf(v),
    ensures
        properties_decodable(connack_references(v), connack_allowed(), user_properties_repeat()),
        find_bytes(connack_references(v), 0x1A) == v.response_information,
        find_bytes(connack_references(v), 0x1C) == v.server_reference,
        spec_authentication_of(
            find_bytes(connack_references(v), 0x15),
            find_bytes(connack_references(v), 0x16),
        ) == Ok::<Option<(Seq<u8>, Option<Seq<u8>>)>, DecodeErrorView>(v.authentication),
        forall|id: u8|
            !(id == 0x1A || id == 0x1C || id == 0x15 || id == 0x16) ==> (
            #[trigger] spec_find_property(connack_references(v), id)) is None,
        spec_user_properties(connack_references(v)) == Seq::<(Seq<u8>, Seq<u8>)>::empty(),
{
    broadcast use group_property_lists, group_decodable_pieces;

    lemma_connack_allowed();
    crate::mqtt_proto::properties::lemma_user_properties_repeat();
    lemma_authentication_props(v.authentication);
}

/// The authentication of a well-formed packet, as properties.
proof fn lemma_authentication_props(a: Option<(Seq<u8>, Option<Seq<u8>>)>)
    requires
        authentication_wf(a),
    ensures
        properties_decodable(authentication_props(a), connack_allowed(), user_properties_repeat()),
        spec_authentication_of(
            find_bytes(authentication_props(a), 0x15),
            find_bytes(authentication_props(a), 0x16),
        ) == Ok::<Option<(Seq<u8>, Option<Seq<u8>>)>, DecodeErrorView>(a),
        forall|id: u8|
            !(id == 0x15 || id == 0x16) ==> (#[trigger] spec_find_property(
                authentication_props(a),
                id,
            )) is None,
        spec_user_properties(authentication_props(a)) == Seq::<(Seq<u8>, Seq<u8>)>::empty(),
{
    broadcast use group_property_lists, group_decodable_pieces;

    lemma_connack_allowed();
    crate::mqtt_proto::properties::lemma_user_properties_repeat();
    match a {
        Some((m, Some(d))) => {
            let x = PropertyView::AuthenticationMethod(m);
            let y = PropertyView::AuthenticationData(d);
            assert(authentication_props(a) =~= seq![x] + seq![y]);
        },
        _ => {},
    }
}

/// The identifiers of a list's properties lie in a set when nothing outside it is found.
proof fn lemma_ids_within(ps: Seq<PropertyView>, ids: Set<u8>)
    requires
        forall|id: u8| !ids.contains(id) ==> (#[trigger] spec_find_property(ps, id)) is None,
    ensures
        forall|j: int| 0 <= j < ps.len() ==> ids.contains(crate::mqtt_proto::properties::property_id(#[trigger] ps[j])),
{
    assert forall|j: int| 0 <= j < ps.len() implies ids.contains(crate::mqtt_proto::properties::property_id(#[trigger] ps[j])) by {
        let id = crate::mqtt_proto::properties::property_id(ps[j]);
        if !ids.contains(id) {
            crate::mqtt_proto::property_lists::lemma_find_absent(ps, id);
        }
    }
}

/// The properties of a well-formed CONNACK can be decoded back, and give back its fields.
proof fn lemma_connack_properties_decodable(v: ConnAckOtherPropertiesView)
    requires
        connack_properties_wf(v),
    ensures
        properties_decodable(connack_properties(v), connack_allowed(), user_properties_repeat()),
        spec_authentication_of(
            find_bytes(connack_properties(v), 0x15),
            find_bytes(connack_properties(v), 0x16),
        ) == Ok::<Option<(Seq<u8>, Option<Seq<u8>>)>, DecodeErrorView>(v.authentication),
        connack_properties_from(connack_properties(v), v.authentication) == v,
{
    let al = connack_allowed();
    let rep = user_properties_repeat();
    let l = connack_limits(v);
    let i = connack_info(v);
    let f = connack_features(v);
    let r = connack_references(v);
    lemma_connack_limits(v);
    lemma_connack_info(v);
    lemma_connack_features(v);
    lemma_connack_references(v);
    crate::mqtt_proto::properties::lemma_user_properties_repeat();
    lemma_ids_within(i, set![0x12u8, 0x22u8, 0x1Fu8, 0x26u8]);
    lemma_ids_within(f, set![0x28u8, 0x2Au8, 0x29u8, 0x13u8]);
    lemma_ids_within(r, set![0x1Au8, 0x1Cu8, 0x15u8, 0x16u8]);
    crate::mqtt_proto::property_lists::lemma_decodable_pieces(l, i, al, rep);
    assert forall|id: u8| !(id == 0x11 || id == 0x21 || id == 0x24 || id == 0x25 || id == 0x27 || id == 0x12 || id == 0x22 || id == 0x1F || id == 0x26) implies (#[trigger] spec_find_property(l + i, id)) is None by {
        crate::mqtt_proto::packet_fields::lemma_find_property_concat(l, i, id);
    }
    crate::mqtt_proto::property_lists::lemma_decodable_pieces(l + i, f, al, rep);
    assert forall|id: u8| !(id == 0x11 || id == 0x21 || id == 0x24 || id == 0x25 || id == 0x27 || id == 0x12 || id == 0x22 || id == 0x1F || id == 0x26 || id == 0x28 || id == 0x2A || id == 0x29 || id == 0x13) implies (#[trigger] spec_find_property(l + i + f, id)) is None by {
        crate::mqtt_proto::packet_fields::lemma_find_property_concat(l, i, id);
        crate::mqtt_proto::packet_fields::lemma_find_property_concat(l + i, f, id);
    }
    crate::mqtt_proto::property_lists::lemma_decodable_pieces(l + i + f, r, al, rep);
    let ps = l + i + f + r;
    assert(ps == connack_properties(v));
    assert forall|id: u8| #![auto] spec_find_property(ps, id) == (if id == 0x11 || id == 0x21 || id == 0x24 || id == 0x25 || id == 0x27 {
        spec_find_property(l, id)
    } else if id == 0x12 || id == 0x22 || id == 0x1F || id == 0x26 {
        spec_find_property(i, id)
    } else if id == 0x28 || id == 0x2A || id == 0x29 || id == 0x13 {
        spec_find_property(f, id)
    } else {
        spec_find_property(r, id)
    }) by {
        crate::mqtt_proto::packet_fields::lemma_find_property_concat(l, i, id);
        crate::mqtt_proto::packet_fields::lemma_find_property_concat(l + i, f, id);
        crate::mqtt_proto::packet_fields::lemma_find_property_concat(l + i + f, r, id);
    }
    crate::mqtt_proto::packet_fields::lemma_user_properties_concat(l, i);
    crate::mqtt_proto::packet_fields::lemma_user_properties_concat(l + i, f);
    crate::mqtt_proto::packet_fields::lemma_user_properties_concat(l + i + f, r);
    let e = Seq::<(Seq<u8>, Seq<u8>)>::empty();
    assert(e + v.user_properties + e + e =~= v.user_properties);
    assert(find_session_expiry(ps) == find_session_expiry(l));
    assert(find_int(ps, 0x21) == find_int(l, 0x21));
    assert(find_qos(ps) == find_qos(l));
    assert(find_bool(ps, 0x25) == find_bool(l, 0x25));
    assert(find_int(ps, 0x27) == find_int(l, 0x27));
    assert(find_bytes(ps, 0x12) == find_bytes(i, 0x12));
    assert(find_int(ps, 0x22) == find_int(i, 0x22));
    assert(find_bytes(ps, 0x1F) == find_bytes(i, 0x1F));
    assert(find_bool(ps, 0x28) == find_bool(f, 0x28));
    assert(find_bool(ps, 0x2A) == find_bool(f, 0x2A));
    assert(find_bool(ps, 0x29) == find_bool(f, 0x29));
    assert(find_keep_alive(ps) == find_keep_alive(f));
    assert(find_bytes(ps, 0x1A) == find_bytes(r, 0x1A));
    assert(find_bytes(ps, 0x1C) == find_bytes(r, 0x1C));
    assert(find_bytes(ps, 0x15) == find_bytes(r, 0x15));
    assert(find_bytes(ps, 0x16) == find_bytes(r, 0x16));
    assert(connack_properties_from(ps, v.authentication) =~= v);
}

/// A well-formed CONNACK decodes as it was encoded: in v5 exactly; in v3, which has no
/// properties, with the properties a CONNACK has when it sends none, and with the reason code v3
/// can carry.
pub proof fn lemma_connack_roundtrip(v: ConnAckView, version: ProtocolVersion)
    requires
        connack_properties_wf(v.other_properties),
        spec_encode_connack(v, version) is Ok,
    ensures
        spec_decode_connack(spec_encode_connack(v, version)->Ok_0, version) == Ok::<
            (ConnAckView, nat),
            DecodeErrorView,
        >(
            (
                if version == ProtocolVersion::V5 {
                    v
                } else {
                    ConnAckView {
                        reason_code: v3_reason_code(v.reason_code),
                        other_properties: connack_default_properties(),
                    }
                },
                spec_encode_connack(v, version)->Ok_0.len(),
            ),
        ),
{
    let bytes = spec_encode_connack(v, version)->Ok_0;
    match v.reason_code {
        ConnectReasonCode::Refused(r) => {
            r.lemma_code_roundtrip(0);
        },
        _ => {},
    }
    if version == ProtocolVersion::V5 {
        lemma_connack_properties_decodable(v.other_properties);
        crate::mqtt_proto::properties::lemma_properties_roundtrip(
            connack_properties(v.other_properties),
            connack_allowed(),
            user_properties_repeat(),
            Seq::empty(),
        );
        let props = spec_encode_properties(connack_properties(v.other_properties))->Ok_0;
        assert(bytes.skip(2) =~= props + Seq::<u8>::empty());
    }
}

// ---------------------------------------------------------------------------------------------
// PUBLISH
// ---------------------------------------------------------------------------------------------

/// Whether a topic name, length prefix included, is a valid one.
pub open spec fn topic_wf(t: Seq<u8>) -> bool {
    is_byte_str(t) && spec_check_topic(t.skip(2)) is Ok
}

/// Whether the properties of a PUBLISH can be encoded and decoded back.
pub open spec fn publish_properties_wf(v: PublishOtherPropertiesView) -> bool {
    &&& v.topic_alias matches Some(a) ==> a != 0
    &&& v.response_topic matches Some(t) ==> topic_wf(t)
    &&& v.correlation_data matches Some(c) ==> c.len() <= 65535
    &&& user_properties_wf(v.user_properties)
    &&& forall|i: int|
        0 <= i < v.subscription_identifiers.len() ==> #[trigger] v.subscription_identifiers[i]
            <= VARINT_MAX
    &&& opt_str_wf(v.content_type)
}

/// Whether the QoS, DUP flag and packet identifier of a PUBLISH go together: QoS 0 has neither
/// a DUP flag nor an identifier, and QoS 1 and 2 have an identifier that is not 0.
pub open spec fn publish_qos_wf(pdq: (QoS, bool, Option<u16>)) -> bool {
    match pdq.0 {
        QoS::AtMostOnce => !pdq.1 && pdq.2 is None,
        _ => pdq.2 matches Some(p) && p != 0,
    }
}

/// Whether a PUBLISH can be encoded and decoded back.
pub open spec fn publish_wf(v: PublishView) -> bool {
    &&& topic_wf(v.topic_name)
    &&& publish_qos_wf(v.packet_identifier_dup_qos)
    &&& publish_properties_wf(v.other_properties)
}

/// Whether the low bits of a PUBLISH's first byte hold its QoS, DUP flag and retain flag.
pub open spec fn publish_flags_match(flags: u8, v: PublishView) -> bool {
    &&& publish_qos_bits(flags) == v.packet_identifier_dup_qos.0.spec_code()
    &&& publish_dup(flags) == v.packet_identifier_dup_qos.1
    &&& publish_retain(flags) == v.retain
}

/// Only user properties and subscription identifiers may repeat in a PUBLISH.
proof fn lemma_publish_repeat()
    ensures
        forall|id: u8| #[trigger] publish_repeat().contains(id) <==> (id == 0x26 || id == 0x0B),
{
    assert forall|id: u8| #[trigger] publish_repeat().contains(id) <==> (id == 0x26 || id == 0x0B) by {
        if id == 0x26 {
            assert(publish_repeat()[0] == id);
        }
        if id == 0x0B {
            assert(publish_repeat()[1] == id);
        }
    }
}

/// The properties of a well-formed PUBLISH can be decoded back, and give back its fields.
#[verifier::rlimit(40)]
proof fn lemma_publish_properties_decodable(v: PublishOtherPropertiesView)
    requires
        publish_properties_wf(v),
    ensures
        properties_decodable(publish_properties(v), publish_allowed(), publish_repeat()),
        publish_properties_from(publish_properties(v)) == v,
{
    broadcast use group_property_lists, group_decodable_pieces;

    lemma_publish_repeat();
    let al = publish_allowed();
    let rep = publish_repeat();
    assert(al[0] == 0x01 && al[1] == 0x02 && al[2] == 0x23 && al[3] == 0x08 && al[4] == 0x09);
    assert(al[5] == 0x26 && al[6] == 0x0B && al[7] == 0x03);
    let a1 = prop_if(v.payload_is_utf8, PropertyView::PayloadIsUtf8(true));
    let a2 = match v.message_expiry_interval {
        Some(i) => seq![PropertyView::MessageExpiryInterval(i)],
        None => Seq::empty(),
    };
    let a3 = match v.topic_alias {
        Some(a) => seq![PropertyView::TopicAlias(a)],
        None => Seq::empty(),
    };
    let a4 = match v.response_topic {
        Some(t) => seq![PropertyView::ResponseTopic(t)],
        None => Seq::empty(),
    };
    let a5 = match v.correlation_data {
        Some(c) => seq![PropertyView::CorrelationData(c)],
        None => Seq::empty(),
    };
    let u = user_properties_as_props(v.user_properties);
    let ids = subscription_identifiers_as_props(v.subscription_identifiers);
    let a8 = opt_str_prop(v.content_type, 0x03);
    assert(publish_properties(v) == a1 + a2 + a3 + a4 + a5 + u + ids + a8);
    assert(properties_decodable(a1, al, rep));
    assert(properties_decodable(a2, al, rep));
    assert(properties_decodable(a3, al, rep));
    assert(properties_decodable(a4, al, rep));
    assert(properties_decodable(a5, al, rep));
    assert(properties_decodable(u, al, rep));
    assert(properties_decodable(ids, al, rep));
    assert(properties_decodable(a8, al, rep));
    assert(properties_decodable(a1 + a2, al, rep));
    assert(properties_decodable(a1 + a2 + a3, al, rep));
    assert(properties_decodable(a1 + a2 + a3 + a4, al, rep));
    assert(properties_decodable(a1 + a2 + a3 + a4 + a5, al, rep));
    assert(properties_decodable(a1 + a2 + a3 + a4 + a5 + u, al, rep));
    assert(properties_decodable(a1 + a2 + a3 + a4 + a5 + u + ids, al, rep));
    assert(properties_decodable(a1 + a2 + a3 + a4 + a5 + u + ids + a8, al, rep));
    let e = Seq::<(Seq<u8>, Seq<u8>)>::empty();
    assert(e + e + e + e + e + v.user_properties + e + e =~= v.user_properties);
    let n = Seq::<u32>::empty();
    assert(n + n + n + n + n + n + v.subscription_identifiers + n =~= v.subscription_identifiers);
    assert(publish_properties_from(publish_properties(v)) =~= v);
}

/// A well-formed PUBLISH decodes as it was encoded, given the flags of its first byte: in v5
/// exactly; in v3, which has no properties, with the properties a PUBLISH has when it sends
/// none.
#[verifier::rlimit(40)]
pub proof fn lemma_publish_roundtrip(v: PublishView, flags: u8, version: ProtocolVersion)
    requires
        publish_wf(v),
        publish_flags_match(flags, v),
        spec_encode_publish(v, version) is Ok,
    ensures
        spec_decode_publish(flags, spec_encode_publish(v, version)->Ok_0, version) == Ok::<
            (PublishView, nat),
            DecodeErrorView,
        >(
            (
                if version == ProtocolVersion::V5 {
                    v
                } else {
                    PublishView { other_properties: publish_default_properties(), ..v }
                },
                spec_encode_publish(v, version)->Ok_0.len(),
            ),
        ),
{
    let bytes = spec_encode_publish(v, version)->Ok_0;
    let t = v.topic_name;
    let pid = match v.packet_identifier_dup_qos.2 {
        Some(p) => crate::buffer_pool::u16_be_bytes(p),
        None => Seq::empty(),
    };
    let rest = bytes.skip(t.len() as int);
    assert(bytes =~= t + rest);
    crate::mqtt_proto::byte_str::lemma_decode_byte_str_prefix(t, rest);
    let after = rest.skip(pid.len() as int);
    assert(rest =~= pid + after);
    match v.packet_identifier_dup_qos.2 {
        Some(p) => {
            crate::buffer_pool::lemma_be_u16_roundtrip(p, after);
        },
        None => {},
    }
    assert(bytes.skip((t.len() + pid.len()) as int) =~= after);
    if version == ProtocolVersion::V5 {
        lemma_publish_properties_decodable(v.other_properties);
        crate::mqtt_proto::properties::lemma_properties_roundtrip(
            publish_properties(v.other_properties),
            publish_allowed(),
            publish_repeat(),
            v.payload,
        );
        let props = spec_encode_properties(publish_properties(v.other_properties))->Ok_0;
        assert(after =~= props + v.payload);
        assert((props + v.payload).skip(props.len() as int) =~= v.payload);
    } else {
        assert(after =~= v.payload);
    }
}

// ---------------------------------------------------------------------------------------------
// SUBACK
// ---------------------------------------------------------------------------------------------

/// The reason code a v3 SUBACK carries for `c`: a failure of any kind is a plain failure.
pub open spec fn v3_subscribe_reason_code(c: SubscribeReasonCode) -> SubscribeReasonCode {
    match c {
        SubscribeReasonCode::GrantedQoS0 => c,
        SubscribeReasonCode::GrantedQoS1 => c,
        SubscribeReasonCode::GrantedQoS2 => c,
        _ => SubscribeReasonCode::UnspecifiedError,
    }
}

/// The reason codes a SUBACK of `version` carries for `codes`.
pub open spec fn carried_reason_codes(codes: Seq<SubscribeReasonCode>, version: ProtocolVersion) -> Seq<
    SubscribeReasonCode,
> {
    if version == ProtocolVersion::V5 {
        codes
    } else {
        codes.map_values(|c: SubscribeReasonCode| v3_subscribe_reason_code(c))
    }
}

/// Encoded reason codes decode as the codes `version` can carry.
proof fn lemma_reason_codes_roundtrip(codes: Seq<SubscribeReasonCode>, version: ProtocolVersion)
    ensures
        spec_decode_reason_codes(spec_encode_reason_codes(codes, version), version) == Ok::<
            Seq<SubscribeReasonCode>,
            DecodeErrorView,
        >(carried_reason_codes(codes, version)),
        spec_encode_reason_codes(codes, version).len() == codes.len(),
    decreases codes.len(),
{
    let bytes = spec_encode_reason_codes(codes, version);
    if codes.len() == 0 {
        assert(carried_reason_codes(codes, version) =~= Seq::<SubscribeReasonCode>::empty());
    } else {
        lemma_reason_codes_roundtrip(codes.drop_last(), version);
        assert(bytes.drop_last() =~= spec_encode_reason_codes(codes.drop_last(), version));
        let c = codes.last();
        assert(bytes.last() == c.spec_to_u8(version));
        c.lemma_code_roundtrip(0);
        assert(carried_reason_codes(codes, version) =~= carried_reason_codes(codes.drop_last(), version).push(
            if version == ProtocolVersion::V5 {
                c
            } else {
                v3_subscribe_reason_code(c)
            },
        ));
    }
}

/// Whether a SUBACK can be encoded and decoded back: its packet identifier is not 0, it has a
/// reason code, and its strings are length-prefixed UTF-8.
pub open spec fn suback_wf(v: SubAckView) -> bool {
    &&& v.packet_identifier != 0
    &&& v.reason_codes.len() > 0
    &&& opt_str_wf(v.reason_string)
    &&& user_properties_wf(v.user_properties)
}

/// A well-formed SUBACK decodes as it was encoded: in v5 exactly; in v3, which has no
/// properties, with the reason codes v3 can carry.
pub proof fn lemma_suback_roundtrip(v: SubAckView, version: ProtocolVersion)
    requires
        suback_wf(v),
        spec_encode_suback(v, version) is Ok,
    ensures
        spec_decode_suback(spec_encode_suback(v, version)->Ok_0, version) == Ok::<
            (SubAckView, nat),
            DecodeErrorView,
        >(
            (
                if version == ProtocolVersion::V5 {
                    v
                } else {
                    SubAckView {
                        packet_identifier: v.packet_identifier,
                        reason_codes: carried_reason_codes(v.reason_codes, version),
                        reason_string: None,
                        user_properties: Seq::empty(),
                    }
                },
                spec_encode_suback(v, version)->Ok_0.len(),
            ),
        ),
{
    broadcast use group_property_lists, group_decodable_pieces;

    let bytes = spec_encode_suback(v, version)->Ok_0;
    let codes = spec_encode_reason_codes(v.reason_codes, version);
    crate::buffer_pool::lemma_be_u16_roundtrip(v.packet_identifier, bytes.skip(2));
    assert(bytes =~= crate::buffer_pool::u16_be_bytes(v.packet_identifier) + bytes.skip(2));
    lemma_reason_codes_roundtrip(v.reason_codes, version);
    if version == ProtocolVersion::V5 {
        crate::mqtt_proto::properties::lemma_user_properties_repeat();
        let al = suback_allowed();
        assert(al[0] == 0x1F && al[1] == 0x26);
        assert(properties_decodable(suback_properties(v), al, user_properties_repeat()));
        crate::mqtt_proto::properties::lemma_properties_roundtrip(
            suback_properties(v),
            al,
            user_properties_repeat(),
            codes,
        );
        let props = spec_encode_properties(suback_properties(v))->Ok_0;
        assert(bytes.skip(2) =~= props + codes);
        assert(bytes.skip((2 + props.len()) as int) =~= codes);
        let e = Seq::<(Seq<u8>, Seq<u8>)>::empty();
        assert(e + v.user_properties =~= v.user_properties);
    } else {
        assert(bytes.skip(2) =~= codes);
        assert(spec_user_properties(Seq::<PropertyView>::empty()) == Seq::<(Seq<u8>, Seq<u8>)>::empty());
    }
}

// ---------------------------------------------------------------------------------------------
// UNSUBSCRIBE
// ---------------------------------------------------------------------------------------------

/// Whether a topic filter, length prefix included, is a valid one of the kind it records.
pub open spec fn filter_wf(f: (Seq<u8>, FilterKind)) -> bool {
    is_byte_str(f.0) && spec_filter_new(f.0.skip(2)) == Ok::<FilterKind, DecodeErrorView>(f.1)
}

/// The encoding of a list of filters is the first filter followed by the rest.
proof fn lemma_encode_filter_list_first(fs: Seq<(Seq<u8>, FilterKind)>)
    requires
        fs.len() > 0,
    ensures
        spec_encode_filter_list(fs) == fs[0].0 + spec_encode_filter_list(fs.drop_first()),
    decreases fs.len(),
{
    if fs.len() == 1 {
        assert(fs.drop_last() =~= Seq::<(Seq<u8>, FilterKind)>::empty());
        assert(fs.drop_first() =~= Seq::<(Seq<u8>, FilterKind)>::empty());
        assert(spec_encode_filter_list(fs.drop_last()) == Seq::<u8>::empty());
        assert(spec_encode_filter_list(fs.drop_first()) == Seq::<u8>::empty());
        assert(spec_encode_filter_list(fs) =~= fs[0].0 + Seq::<u8>::empty());
    } else {
        lemma_encode_filter_list_first(fs.drop_last());
        assert(fs.drop_last().drop_first() =~= fs.drop_first().drop_last());
        assert(fs.drop_first().last() == fs.last());
        assert(spec_encode_filter_list(fs) =~= fs[0].0 + spec_encode_filter_list(fs.drop_first()));
    }
}

/// Decoding encoded filters, after `acc`, gives back `acc` followed by them.
proof fn lemma_filter_list_roundtrip(fs: Seq<(Seq<u8>, FilterKind)>, acc: Seq<(Seq<u8>, FilterKind)>)
    requires
        forall|i: int| 0 <= i < fs.len() ==> filter_wf(#[trigger] fs[i]),
    ensures
        spec_decode_filter_list(spec_encode_filter_list(fs), acc) == Ok::<
            Seq<(Seq<u8>, FilterKind)>,
            DecodeErrorView,
        >(acc + fs),
    decreases fs.len(),
{
    if fs.len() == 0 {
        assert(acc + fs =~= acc);
    } else {
        let f = fs[0];
        let tail = spec_encode_filter_list(fs.drop_first());
        lemma_encode_filter_list_first(fs);
        assert(filter_wf(f));
        crate::mqtt_proto::byte_str::lemma_decode_byte_str_prefix(f.0, tail);
        crate::mqtt_proto::binary_data::lemma_is_length_prefixed(f.0);
        assert((f.0 + tail).skip(f.0.len() as int) =~= tail);
        assert(acc.push(f) + fs.drop_first() =~= acc + fs);
        assert forall|i: int| 0 <= i < fs.drop_first().len() implies filter_wf(#[trigger] fs.drop_first()[i]) by {
            assert(fs.drop_first()[i] == fs[i + 1]);
        }
        lemma_filter_list_roundtrip(fs.drop_first(), acc.push(f));
    }
}

/// Whether an UNSUBSCRIBE can be encoded and decoded back.
pub open spec fn unsubscribe_wf(v: UnsubscribeView) -> bool {
    &&& v.packet_identifier != 0
    &&& v.unsubscribe_from.len() > 0
    &&& forall|i: int| 0 <= i < v.unsubscribe_from.len() ==> filter_wf(#[trigger] v.unsubscribe_from[i])
    &&& user_properties_wf(v.user_properties)
}

/// A well-formed UNSUBSCRIBE decodes as it was encoded: in v5 exactly; in v3, which has no
/// properties, without user properties.
pub proof fn lemma_unsubscribe_roundtrip(v: UnsubscribeView, version: ProtocolVersion)
    requires
        unsubscribe_wf(v),
        spec_encode_unsubscribe(v, version) is Ok,
    ensures
        spec_decode_unsubscribe(spec_encode_unsubscribe(v, version)->Ok_0, version) == Ok::<
            (UnsubscribeView, nat),
            DecodeErrorView,
        >(
            (
                if version == ProtocolVersion::V5 {
                    v
                } else {
                    UnsubscribeView { user_properties: Seq::empty(), ..v }
                },
                spec_encode_unsubscribe(v, version)->Ok_0.len(),
            ),
        ),
{
    broadcast use group_property_lists, group_decodable_pieces;

    let bytes = spec_encode_unsubscribe(v, version)->Ok_0;
    let filters = spec_encode_filter_list(v.unsubscribe_from);
    crate::buffer_pool::lemma_be_u16_roundtrip(v.packet_identifier, bytes.skip(2));
    assert(bytes =~= crate::buffer_pool::u16_be_bytes(v.packet_identifier) + bytes.skip(2));
    lemma_filter_list_roundtrip(v.unsubscribe_from, Seq::empty());
    assert(Seq::<(Seq<u8>, FilterKind)>::empty() + v.unsubscribe_from =~= v.unsubscribe_from);
    if version == ProtocolVersion::V5 {
        crate::mqtt_proto::properties::lemma_user_properties_repeat();
        let al = unsubscribe_allowed();
        assert(al[0] == 0x26);
        let ps = user_properties_as_props(v.user_properties);
        assert(properties_decodable(ps, al, user_properties_repeat()));
        crate::mqtt_proto::properties::lemma_properties_roundtrip(ps, al, user_properties_repeat(), filters);
        let props = spec_encode_properties(ps)->Ok_0;
        assert(bytes.skip(2) =~= props + filters);
        assert(bytes.skip((2 + props.len()) as int) =~= filters);
    } else {
        assert(bytes.skip(2) =~= filters);
    }
}

// ---------------------------------------------------------------------------------------------
// SUBSCRIBE
// ---------------------------------------------------------------------------------------------

/// Whether a topic filter with its options can be encoded and decoded back: the filter is valid,
/// and a shared subscription does not ask for no local messages.
pub open spec fn subscribe_to_wf(t: ((Seq<u8>, FilterKind), SubscribeOptions)) -> bool {
    &&& filter_wf(t.0)
    &&& !(t.0.1 is Shared && t.1.other_properties.no_local)
}

/// The topic filter with its options that a SUBSCRIBE of `version` carries for `t`: v3 carries
/// only the maximum QoS.
pub open spec fn carried_subscribe_to(t: ((Seq<u8>, FilterKind), SubscribeOptions), version: ProtocolVersion) -> (
    (Seq<u8>, FilterKind),
    SubscribeOptions,
) {
    if version == ProtocolVersion::V5 {
        t
    } else {
        (t.0, SubscribeOptions { maximum_qos: t.1.maximum_qos, other_properties: subscribe_options_default() })
    }
}

/// The encoding of a list of topic filters with options is the first followed by the rest.
proof fn lemma_encode_subscribe_to_list_first(
    list: Seq<((Seq<u8>, FilterKind), SubscribeOptions)>,
    version: ProtocolVersion,
)
    requires
        list.len() > 0,
    ensures
        spec_encode_subscribe_to_list(list, version) == spec_encode_subscribe_to(list[0], version)
            + spec_encode_subscribe_to_list(list.drop_first(), version),
    decreases list.len(),
{
    let e = Seq::<((Seq<u8>, FilterKind), SubscribeOptions)>::empty();
    if list.len() == 1 {
        assert(list.drop_last() =~= e);
        assert(list.drop_first() =~= e);
        assert(spec_encode_subscribe_to_list(e, version) == Seq::<u8>::empty());
        assert(spec_encode_subscribe_to_list(list, version) =~= spec_encode_subscribe_to(list[0], version)
            + Seq::<u8>::empty());
    } else {
        lemma_encode_subscribe_to_list_first(list.drop_last(), version);
        assert(list.drop_last().drop_first() =~= list.drop_first().drop_last());
        assert(list.drop_first().last() == list.last());
        assert(spec_encode_subscribe_to_list(list, version) =~= spec_encode_subscribe_to(list[0], version)
            + spec_encode_subscribe_to_list(list.drop_first(), version));
    }
}

/// A topic filter with its options decodes as what `version` carries of it, whatever follows.
#[verifier::spinoff_prover]
#[verifier::rlimit(60)]
proof fn lemma_subscribe_to_roundtrip(
    t: ((Seq<u8>, FilterKind), SubscribeOptions),
    version: ProtocolVersion,
    tail: Seq<u8>,
)
    requires
        subscribe_to_wf(t),
    ensures
        spec_decode_subscribe_to(spec_encode_subscribe_to(t, version) + tail, version) == Ok::<
            (((Seq<u8>, FilterKind), SubscribeOptions), nat),
            DecodeErrorView,
        >((carried_subscribe_to(t, version), spec_encode_subscribe_to(t, version).len())),
        spec_encode_subscribe_to(t, version).len() == t.0.0.len() + 1,
        t.0.0.len() >= 2,
{
    let s = spec_encode_subscribe_to(t, version) + tail;
    let b = spec_subscribe_options_byte(t.1, version);
    assert(s =~= t.0.0 + (seq![b] + tail));
    crate::mqtt_proto::byte_str::lemma_decode_byte_str_prefix(t.0.0, seq![b] + tail);
    crate::mqtt_proto::binary_data::lemma_is_length_prefixed(t.0.0);
    assert(s.skip(t.0.0.len() as int) =~= seq![b] + tail);
    crate::mqtt_proto::subscribe::lemma_subscribe_options_roundtrip(t.1, version, tail);
    reveal(spec_decode_subscribe_to);
}

/// Decoding encoded topic filters with options, after `acc`, gives back `acc` followed by what
/// `version` carries of them.
proof fn lemma_subscribe_to_list_roundtrip(
    list: Seq<((Seq<u8>, FilterKind), SubscribeOptions)>,
    version: ProtocolVersion,
    acc: Seq<((Seq<u8>, FilterKind), SubscribeOptions)>,
)
    requires
        forall|i: int| 0 <= i < list.len() ==> subscribe_to_wf(#[trigger] list[i]),
    ensures
        spec_decode_subscribe_to_list(spec_encode_subscribe_to_list(list, version), version, acc)
            == Ok::<Seq<((Seq<u8>, FilterKind), SubscribeOptions)>, DecodeErrorView>(
            acc + list.map_values(|t: ((Seq<u8>, FilterKind), SubscribeOptions)| carried_subscribe_to(t, version)),
        ),
    decreases list.len(),
{
    let carried = list.map_values(|t: ((Seq<u8>, FilterKind), SubscribeOptions)| carried_subscribe_to(t, version));
    if list.len() == 0 {
        assert(acc + carried =~= acc);
    } else {
        let t = list[0];
        let tail = spec_encode_subscribe_to_list(list.drop_first(), version);
        lemma_encode_subscribe_to_list_first(list, version);
        assert(subscribe_to_wf(t));
        let s = spec_encode_subscribe_to(t, version) + tail;
        lemma_subscribe_to_roundtrip(t, version, tail);
        assert(s.skip(spec_encode_subscribe_to(t, version).len() as int) =~= tail);
        assert forall|i: int| 0 <= i < list.drop_first().len() implies subscribe_to_wf(#[trigger] list.drop_first()[i]) by {
            assert(list.drop_first()[i] == list[i + 1]);
        }
        lemma_subscribe_to_list_roundtrip(list.drop_first(), version, acc.push(carried_subscribe_to(t, version)));
        assert(acc.push(carried_subscribe_to(t, version)) + list.drop_first().map_values(
            |t: ((Seq<u8>, FilterKind), SubscribeOptions)| carried_subscribe_to(t, version),
        ) =~= acc + carried);
    }
}

/// Whether a SUBSCRIBE can be encoded and decoded back.
pub open spec fn subscribe_wf(v: SubscribeView) -> bool {
    &&& v.packet_identifier != 0
    &&& v.subscribe_to.len() > 0
    &&& forall|i: int| 0 <= i < v.subscribe_to.len() ==> subscribe_to_wf(#[trigger] v.subscribe_to[i])
    &&& v.other_properties.subscription_identifier matches Some(id) ==> id <= VARINT_MAX
    &&& user_properties_wf(v.other_properties.user_properties)
}

/// A well-formed SUBSCRIBE decodes as it was encoded: in v5 exactly; in v3, which has no
/// properties, without them and with only the maximum QoS of each subscription's options.
pub proof fn lemma_subscribe_roundtrip(v: SubscribeView, version: ProtocolVersion)
    requires
        subscribe_wf(v),
        spec_encode_subscribe(v, version) is Ok,
    ensures
        spec_decode_subscribe(spec_encode_subscribe(v, version)->Ok_0, version) == Ok::<
            (SubscribeView, nat),
            DecodeErrorView,
        >(
            (
                if version == ProtocolVersion::V5 {
                    v
                } else {
                    SubscribeView {
                        packet_identifier: v.packet_identifier,
                        subscribe_to: v.subscribe_to.map_values(
                            |t: ((Seq<u8>, FilterKind), SubscribeOptions)| carried_subscribe_to(t, version),
                        ),
                        other_properties: SubscribeOtherPropertiesView {
                            subscription_identifier: None,
                            user_properties: Seq::empty(),
                        },
                    }
                },
                spec_encode_subscribe(v, version)->Ok_0.len(),
            ),
        ),
{
    broadcast use group_property_lists, group_decodable_pieces;

    let bytes = spec_encode_subscribe(v, version)->Ok_0;
    let list = spec_encode_subscribe_to_list(v.subscribe_to, version);
    let carried = v.subscribe_to.map_values(|t: ((Seq<u8>, FilterKind), SubscribeOptions)| carried_subscribe_to(t, version));
    crate::buffer_pool::lemma_be_u16_roundtrip(v.packet_identifier, bytes.skip(2));
    assert(bytes =~= crate::buffer_pool::u16_be_bytes(v.packet_identifier) + bytes.skip(2));
    lemma_subscribe_to_list_roundtrip(v.subscribe_to, version, Seq::empty());
    assert(Seq::<((Seq<u8>, FilterKind), SubscribeOptions)>::empty() + carried =~= carried);
    if version == ProtocolVersion::V5 {
        assert(carried =~= v.subscribe_to);
        crate::mqtt_proto::properties::lemma_user_properties_repeat();
        let al = subscribe_allowed();
        assert(al[0] == 0x0B && al[1] == 0x26);
        let ps = subscribe_properties(v.other_properties);
        assert(properties_decodable(ps, al, user_properties_repeat()));
        crate::mqtt_proto::properties::lemma_properties_roundtrip(ps, al, user_properties_repeat(), list);
        let props = spec_encode_properties(ps)->Ok_0;
        assert(bytes.skip(2) =~= props + list);
        assert(bytes.skip((2 + props.len()) as int) =~= list);
        let e = Seq::<(Seq<u8>, Seq<u8>)>::empty();
        assert(e + v.other_properties.user_properties =~= v.other_properties.user_properties);
    } else {
        assert(bytes.skip(2) =~= list);
    }
}

// ---------------------------------------------------------------------------------------------
// Whole packets
// ---------------------------------------------------------------------------------------------

/// Whether a packet can be encoded and decoded back: its packet identifiers are not 0, its
/// strings are length-prefixed UTF-8, its topic names and filters are valid, its lists that must
/// not be empty are not, and its other values are in range.
pub open spec fn packet_wf(p: PacketView) -> bool {
    match p {
        PacketView::Auth(v) => authentication_wf(v.authentication) && opt_str_wf(v.reason_string)
            && user_properties_wf(v.user_properties),
        PacketView::ConnAck(v) => connack_properties_wf(v.other_properties),
        PacketView::Disconnect(v) => (v.session_expiry_interval matches Some(
            SessionExpiryInterval::Duration(d),
        ) ==> d != u32::MAX) && opt_str_wf(v.reason_string) && opt_str_wf(v.server_reference)
            && user_properties_wf(v.user_properties),
        PacketView::PingReq => true,
        PacketView::PingResp => true,
        PacketView::PubAck(v) => v.packet_identifier != 0 && opt_str_wf(v.reason_string)
            && user_properties_wf(v.user_properties),
        PacketView::PubComp(v) => v.packet_identifier != 0 && opt_str_wf(v.reason_string)
            && user_properties_wf(v.user_properties),
        PacketView::Publish(v) => publish_wf(v),
        PacketView::SubAck(v) => suback_wf(v),
        PacketView::Subscribe(v) => subscribe_wf(v),
        PacketView::Unsubscribe(v) => unsubscribe_wf(v),
        PacketView::PubRec(v) => v.packet_identifier != 0 && opt_str_wf(v.reason_string)
            && user_properties_wf(v.user_properties),
        PacketView::PubRel(v) => v.packet_identifier != 0 && opt_str_wf(v.reason_string)
            && user_properties_wf(v.user_properties),
        PacketView::UnsubAck(v) => v.packet_identifier != 0 && opt_str_wf(v.reason_string)
            && user_properties_wf(v.user_properties),
    }
}

/// What a packet of `version` carries of `p`. A v5 packet carries all of it. A v3 packet carries
/// no properties, and only the reason codes v3 has: a PUBACK or PUBCOMP is a success, a
/// DISCONNECT a normal one, and the refusals of a CONNACK and failures of a SUBACK are those v3
/// can tell apart.
pub open spec fn carried_packet(p: PacketView, version: ProtocolVersion) -> PacketView {
    if version == ProtocolVersion::V5 {
        p
    } else {
        match p {
            PacketView::ConnAck(v) => PacketView::ConnAck(
                ConnAckView {
                    reason_code: v3_reason_code(v.reason_code),
                    other_properties: connack_default_properties(),
                },
            ),
            PacketView::Disconnect(_) => PacketView::Disconnect(disconnect_view(DisconnectReasonCode::Normal)),
            PacketView::PubAck(v) => PacketView::PubAck(puback_view(v.packet_identifier, PubAckReasonCode::Success)),
            PacketView::PubComp(v) => PacketView::PubComp(pubcomp_view(v.packet_identifier, PubCompReasonCode::Success)),
            PacketView::Publish(v) => PacketView::Publish(PublishView { other_properties: publish_default_properties(), ..v }),
            PacketView::SubAck(v) => PacketView::SubAck(
                SubAckView {
                    packet_identifier: v.packet_identifier,
                    reason_codes: carried_reason_codes(v.reason_codes, version),
                    reason_string: None,
                    user_properties: Seq::empty(),
                },
            ),
            PacketView::Subscribe(v) => PacketView::Subscribe(
                SubscribeView {
                    packet_identifier: v.packet_identifier,
                    subscribe_to: v.subscribe_to.map_values(
                        |t: ((Seq<u8>, FilterKind), SubscribeOptions)| carried_subscribe_to(t, version),
                    ),
                    other_properties: SubscribeOtherPropertiesView {
                        subscription_identifier: None,
                        user_properties: Seq::empty(),
                    },
                },
            ),
            PacketView::Unsubscribe(v) => PacketView::Unsubscribe(UnsubscribeView { user_properties: Seq::empty(), ..v }),
            PacketView::PubRec(v) => PacketView::PubRec(pubrec_view(v.packet_identifier, PubRecReasonCode::Success)),
            PacketView::PubRel(v) => PacketView::PubRel(pubrel_view(v.packet_identifier, PubRelReasonCode::Success)),
            PacketView::UnsubAck(v) => PacketView::UnsubAck(unsuback_view(v.packet_identifier, Seq::empty())),
            _ => p,
        }
    }
}

/// The first byte of a PUBLISH holds its type, and its QoS, DUP flag and retain flag.
proof fn lemma_publish_first_byte(v: PublishView)
    requires
        publish_qos_wf(v.packet_identifier_dup_qos),
    ensures
        (spec_first_byte(PacketView::Publish(v)) & 0xF0) == 0x30,
        publish_flags_match(spec_first_byte(PacketView::Publish(v)) & 0x0F, v),
{
    let (qos, dup, _) = v.packet_identifier_dup_qos;
    let q: u8 = match qos {
        QoS::AtMostOnce => 0u8,
        QoS::AtLeastOnce => 2u8,
        QoS::ExactlyOnce => 4u8,
    };
    let d: u8 = if dup && !(qos is AtMostOnce) {
        8u8
    } else {
        0u8
    };
    let r: u8 = if v.retain {
        1u8
    } else {
        0u8
    };
    let fb = spec_first_byte(PacketView::Publish(v));
    assert(fb == (0x30 + ((q + d + r) as u8)) as u8);
    assert((fb & 0xF0) == 0x30 && ((fb & 0x0F & 0x06) >> 1) == q / 2 && ((fb & 0x0F & 0x08) != 0)
        == (d == 8) && ((fb & 0x0F & 0x01) != 0) == (r == 1)) by (bit_vector)
        requires
            fb == (0x30 + ((q + d + r) as u8)) as u8,
            q == 0 || q == 2 || q == 4,
            d == 0 || d == 8,
            r == 0 || r == 1,
    ;
    qos.lemma_code_roundtrip(0);
}

/// The type and flags of the first bytes of the packets other than PUBLISH.
proof fn lemma_first_byte_bits()
    ensures
        (0xF0u8 & 0xF0u8) == 0xF0u8 && (0xF0u8 & 0x0Fu8) == 0u8,
        (0x20u8 & 0xF0u8) == 0x20u8 && (0x20u8 & 0x0Fu8) == 0u8,
        (0xE0u8 & 0xF0u8) == 0xE0u8 && (0xE0u8 & 0x0Fu8) == 0u8,
        (0xC0u8 & 0xF0u8) == 0xC0u8 && (0xC0u8 & 0x0Fu8) == 0u8,
        (0xD0u8 & 0xF0u8) == 0xD0u8 && (0xD0u8 & 0x0Fu8) == 0u8,
        (0x40u8 & 0xF0u8) == 0x40u8 && (0x40u8 & 0x0Fu8) == 0u8,
        (0x70u8 & 0xF0u8) == 0x70u8 && (0x70u8 & 0x0Fu8) == 0u8,
        (0x90u8 & 0xF0u8) == 0x90u8 && (0x90u8 & 0x0Fu8) == 0u8,
        (0x82u8 & 0xF0u8) == 0x80u8 && (0x82u8 & 0x0Fu8) == 2u8,
        (0xA2u8 & 0xF0u8) == 0xA0u8 && (0xA2u8 & 0x0Fu8) == 2u8,
        (0x50u8 & 0xF0u8) == 0x50u8 && (0x50u8 & 0x0Fu8) == 0u8,
        (0x62u8 & 0xF0u8) == 0x60u8 && (0x62u8 & 0x0Fu8) == 2u8,
        (0xB0u8 & 0xF0u8) == 0xB0u8 && (0xB0u8 & 0x0Fu8) == 0u8,
{
    assert((0x50u8 & 0xF0u8) == 0x50u8 && (0x50u8 & 0x0Fu8) == 0u8) by (bit_vector);
    assert((0x62u8 & 0xF0u8) == 0x60u8 && (0x62u8 & 0x0Fu8) == 2u8) by (bit_vector);
    assert((0xB0u8 & 0xF0u8) == 0xB0u8 && (0xB0u8 & 0x0Fu8) == 0u8) by (bit_vector);
    assert((0xF0u8 & 0xF0u8) == 0xF0u8 && (0xF0u8 & 0x0Fu8) == 0u8) by (bit_vector);
    assert((0x20u8 & 0xF0u8) == 0x20u8 && (0x20u8 & 0x0Fu8) == 0u8) by (bit_vector);
    assert((0xE0u8 & 0xF0u8) == 0xE0u8 && (0xE0u8 & 0x0Fu8) == 0u8) by (bit_vector);
    assert((0xC0u8 & 0xF0u8) == 0xC0u8 && (0xC0u8 & 0x0Fu8) == 0u8) by (bit_vector);
    assert((0xD0u8 & 0xF0u8) == 0xD0u8 && (0xD0u8 & 0x0Fu8) == 0u8) by (bit_vector);
    assert((0x40u8 & 0xF0u8) == 0x40u8 && (0x40u8 & 0x0Fu8) == 0u8) by (bit_vector);
    assert((0x70u8 & 0xF0u8) == 0x70u8 && (0x70u8 & 0x0Fu8) == 0u8) by (bit_vector);
    assert((0x90u8 & 0xF0u8) == 0x90u8 && (0x90u8 & 0x0Fu8) == 0u8) by (bit_vector);
    assert((0x82u8 & 0xF0u8) == 0x80u8 && (0x82u8 & 0x0Fu8) == 2u8) by (bit_vector);
    assert((0xA2u8 & 0xF0u8) == 0xA0u8 && (0xA2u8 & 0x0Fu8) == 2u8) by (bit_vector);
}

/// Decoding the encoded body of a packet, after its first byte, gives back what its version
/// carries of it.
#[verifier::spinoff_prover]
#[verifier::rlimit(80)]
proof fn lemma_body_roundtrip(p: PacketView, version: ProtocolVersion)
    requires
        packet_wf(p),
        packet_encodable_for(p, version),
        spec_encode_body(p, version) is Ok,
    ensures
        crate::mqtt_proto::packet::spec_decode_packet(
            spec_first_byte(p),
            spec_encode_body(p, version)->Ok_0,
            version,
        ) == Ok::<PacketView, DecodeErrorView>(carried_packet(p, version)),
{
    lemma_first_byte_bits();
    match p {
        PacketView::Auth(v) => {
            crate::mqtt_proto::auth::lemma_auth_roundtrip(v, 0);
        },
        PacketView::ConnAck(v) => {
            lemma_connack_roundtrip(v, version);
        },
        PacketView::Disconnect(v) => {
            crate::mqtt_proto::disconnect::lemma_disconnect_roundtrip(v, version);
        },
        PacketView::PubAck(v) => {
            crate::mqtt_proto::puback::lemma_puback_roundtrip(v, version);
        },
        PacketView::PubComp(v) => {
            crate::mqtt_proto::pubcomp::lemma_pubcomp_roundtrip(v, version);
        },
        PacketView::Publish(v) => {
            lemma_publish_first_byte(v);
            lemma_publish_roundtrip(v, spec_first_byte(p) & 0x0F, version);
        },
        PacketView::SubAck(v) => {
            lemma_suback_roundtrip(v, version);
        },
        PacketView::Subscribe(v) => {
            lemma_subscribe_roundtrip(v, version);
        },
        PacketView::Unsubscribe(v) => {
            lemma_unsubscribe_roundtrip(v, version);
        },
        PacketView::PubRec(v) => {
            crate::mqtt_proto::pubrec::lemma_pubrec_roundtrip(v, version);
        },
        PacketView::PubRel(v) => {
            crate::mqtt_proto::pubrel::lemma_pubrel_roundtrip(v, version);
        },
        PacketView::UnsubAck(v) => {
            crate::mqtt_proto::unsuback::lemma_unsuback_roundtrip(v, version);
        },
        _ => {},
    }
}

/// Decoding an encoded packet gives back what its version carries of it: all of it in v5, and
/// in v3 what v3 has room for.
#[verifier::spinoff_prover]
#[verifier::rlimit(80)]
pub proof fn lemma_packet_roundtrip(p: PacketView, version: ProtocolVersion)
    requires
        packet_wf(p),
        packet_encodable_for(p, version),
        spec_encode_packet(p, version) is Ok,
    ensures
        spec_decode_full(spec_encode_packet(p, version)->Ok_0, version) == Ok::<
            PacketView,
            DecodeErrorView,
        >(carried_packet(p, version)),
{
    let bytes = spec_encode_packet(p, version)->Ok_0;
    let body = spec_encode_body(p, version)->Ok_0;
    let fb = spec_first_byte(p);
    let len = crate::mqtt_proto::spec_encode_varint(body.len());
    crate::mqtt_proto::lemma_varint_roundtrip(body.len(), body);
    assert(bytes =~= seq![fb] + (len + body));
    assert(bytes.skip(1) =~= len + body);
    assert(bytes.skip((1 + len.len()) as int) =~= body);
    lemma_body_roundtrip(p, version);
}

/// A packet decoded from any bytes can be encoded again for the same version, into bytes that
/// fit this machine, and decoding those bytes gives back the same packet.
pub proof fn lemma_decode_encode_decode(s: Seq<u8>, version: ProtocolVersion)
    requires
        spec_decode_full(s, version) is Ok,
    ensures
        ({
            let p = spec_decode_full(s, version)->Ok_0;
            &&& packet_encodable_for(p, version)
            &&& packet_fits(p, version)
            &&& spec_encode_packet(p, version) is Ok
            &&& spec_decode_full(spec_encode_packet(p, version)->Ok_0, version) == Ok::<
                PacketView,
                DecodeErrorView,
            >(p)
        }),
{
    let p = spec_decode_full(s, version)->Ok_0;
    crate::mqtt_proto::decode_laws::lemma_decoded_packet_wf(s, version);
    crate::mqtt_proto::size_laws::lemma_decoded_packet_encodes(s, version);
    lemma_packet_roundtrip(p, version);
}

} // verus!
