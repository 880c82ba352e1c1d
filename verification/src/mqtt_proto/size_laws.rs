//! Decoded packets encode again into no more bytes than they were decoded from.
use vstd::prelude::*;

use crate::mqtt_proto::decode_laws::{all_properties_wf, lemma_decode_properties_wf, lemma_varint_len_monotonic};
use crate::mqtt_proto::packet_fields::{find_bytes, lemma_find_property_id, opt_str_prop};
use crate::mqtt_proto::properties::{
    first_unencodable, property_wf, spec_decode_properties, spec_encode_properties,
    spec_encode_property_list, spec_find_property, spec_user_properties, user_properties_as_props,
    user_properties_repeat, PropertyView,
};
use crate::mqtt_proto::puback::{puback_allowed, spec_decode_puback, spec_encode_puback};
use crate::mqtt_proto::pubcomp::{pubcomp_allowed, spec_decode_pubcomp, spec_encode_pubcomp};
use crate::mqtt_proto::pubrec::{pubrec_allowed, spec_decode_pubrec, spec_encode_pubrec};
use crate::mqtt_proto::pubrel::{pubrel_allowed, spec_decode_pubrel, spec_encode_pubrel};
use crate::mqtt_proto::unsuback::{
    spec_decode_unsuback, spec_decode_unsuback_codes, spec_encode_unsuback, spec_encode_unsuback_codes,
    spec_first_failure, unsuback_allowed,
};
use crate::mqtt_proto::suback::{spec_decode_suback, spec_encode_suback, suback_allowed};
use crate::mqtt_proto::{spec_encode_varint, ProtocolVersion, VARINT_MAX};
use crate::mqtt_proto::filter::FilterKind;
use crate::mqtt_proto::auth::{
    auth_allowed, auth_properties, spec_authentication_of, spec_decode_auth, spec_encode_auth, AuthView,
};
use crate::mqtt_proto::disconnect::{
    disconnect_allowed, disconnect_properties, spec_decode_disconnect, spec_encode_disconnect,
    DisconnectView,
};
use crate::mqtt_proto::packet_fields::find_session_expiry;
use crate::mqtt_proto::publish::{
    publish_allowed, publish_properties, publish_properties_from, publish_repeat,
    spec_decode_publish, spec_decode_publish_qos, spec_encode_publish,
};
use crate::mqtt_proto::property_sizes::lemma_subscription_identifiers_are_with_id;
use crate::mqtt_proto::connack::{
    connack_allowed, connack_features, connack_info, connack_limits, connack_properties,
    connack_properties_from, connack_references, prop_if, spec_decode_connack, spec_encode_connack,
};
use crate::mqtt_proto::packet_fields::{find_bool, find_keep_alive, find_qos, opt_prop};
use crate::mqtt_proto::auth::authentication_props;
use crate::mqtt_proto::packet::{packet_fits, spec_decode_full, spec_decode_packet, spec_encode_body, spec_encode_packet};
use crate::mqtt_proto::packet_fields::find_int;
use crate::mqtt_proto::suback::{spec_decode_reason_codes, spec_encode_reason_codes};
use crate::mqtt_proto::subscribe::{
    spec_decode_subscribe, spec_decode_subscribe_to, spec_decode_subscribe_to_list,
    spec_encode_subscribe, spec_encode_subscribe_to, spec_encode_subscribe_to_list,
    subscribe_allowed, subscribe_properties, SubscribeOptions, SubscribeOtherPropertiesView,
};
use crate::mqtt_proto::unsubscribe::{
    spec_decode_filter_list, spec_decode_unsubscribe, spec_encode_filter_list,
    spec_encode_unsubscribe, unsubscribe_allowed,
};
use crate::mqtt_proto::property_sizes::{
    encoded_len, group_with_id, lemma_encoded_len_by_id, lemma_found_len,
    lemma_user_properties_are_with_id, with_id,
};

verus! {

broadcast use crate::mqtt_proto::property::group_nonzero;

/// A reason string and user properties taken from `ps` take no more bytes than `ps`.
pub proof fn lemma_reason_and_users_size(ps: Seq<PropertyView>)
    ensures
        encoded_len(
            opt_str_prop(find_bytes(ps, 0x1F), 0x1F) + user_properties_as_props(spec_user_properties(ps)),
        ) <= encoded_len(ps),
{
    let a = opt_str_prop(find_bytes(ps, 0x1F), 0x1F) + user_properties_as_props(spec_user_properties(ps));
    lemma_user_properties_are_with_id(ps);
    lemma_find_property_id(ps, 0x1F);
    assert forall|id: u8| encoded_len(#[trigger] with_id(a, id)) <= encoded_len(with_id(ps, id)) by {
        broadcast use group_with_id;

        lemma_found_len(ps, id);
    }
    lemma_encoded_len_by_id(a, ps);
}

/// Only subscription identifiers can keep a list from being encoded.
pub proof fn lemma_first_unencodable_by_id(ps: Seq<PropertyView>)
    ensures
        first_unencodable(ps) == first_unencodable(with_id(ps, 0x0B)),
    decreases ps.len(),
{
    if ps.len() > 0 {
        lemma_first_unencodable_by_id(ps.drop_last());
        if crate::mqtt_proto::properties::property_id(ps.last()) == 0x0B {
            let w = with_id(ps.drop_last(), 0x0B);
            assert(w.push(ps.last()).drop_last() =~= w);
        }
    }
}

/// A list of well-formed properties can be encoded.
pub proof fn lemma_wf_encodable(ps: Seq<PropertyView>)
    requires
        all_properties_wf(ps),
    ensures
        first_unencodable(ps) is None,
    decreases ps.len(),
{
    if ps.len() > 0 {
        assert forall|i: int| 0 <= i < ps.drop_last().len() implies property_wf(#[trigger] ps.drop_last()[i]) by {
            assert(ps.drop_last()[i] == ps[i]);
        }
        lemma_wf_encodable(ps.drop_last());
        assert(property_wf(ps[ps.len() - 1]));
    }
}

/// Properties that take no more bytes than a decoded section's encode into no more bytes than
/// the section took, when only the section's subscription identifiers could keep them from
/// being encoded.
pub proof fn lemma_section_size(s: Seq<u8>, allowed: Seq<u8>, repeatable: Seq<u8>, a: Seq<PropertyView>)
    requires
        spec_decode_properties(s, allowed, repeatable) is Ok,
        encoded_len(a) <= encoded_len(spec_decode_properties(s, allowed, repeatable)->Ok_0.0),
        first_unencodable(a) is None,
    ensures
        spec_encode_properties(a) is Ok,
        spec_encode_properties(a)->Ok_0.len() <= spec_decode_properties(s, allowed, repeatable)->Ok_0.1,
{
    lemma_decode_properties_wf(s, allowed, repeatable);
    let (ps, n) = spec_decode_properties(s, allowed, repeatable)->Ok_0;
    lemma_varint_len_monotonic(encoded_len(a), encoded_len(ps));
}

/// A reason string and user properties taken from a decoded section encode into no more bytes
/// than the section took.
proof fn lemma_reason_and_users_section(s: Seq<u8>, allowed: Seq<u8>)
    requires
        spec_decode_properties(s, allowed, user_properties_repeat()) is Ok,
    ensures
        ({
            let ps = spec_decode_properties(s, allowed, user_properties_repeat())->Ok_0.0;
            let a = opt_str_prop(find_bytes(ps, 0x1F), 0x1F) + user_properties_as_props(spec_user_properties(ps));
            &&& spec_encode_properties(a) is Ok
            &&& spec_encode_properties(a)->Ok_0.len() <= spec_decode_properties(s, allowed, user_properties_repeat())->Ok_0.1
        }),
{
    broadcast use group_with_id;

    let ps = spec_decode_properties(s, allowed, user_properties_repeat())->Ok_0.0;
    let a = opt_str_prop(find_bytes(ps, 0x1F), 0x1F) + user_properties_as_props(spec_user_properties(ps));
    lemma_reason_and_users_size(ps);
    lemma_first_unencodable_by_id(a);
    assert(first_unencodable(Seq::<PropertyView>::empty()) is None);
    lemma_section_size(s, allowed, user_properties_repeat(), a);
}

/// A decoded PUBACK encodes again, into no more bytes than it was decoded from.
pub proof fn lemma_decoded_puback_size(s: Seq<u8>, version: ProtocolVersion)
    ensures
        spec_decode_puback(s, version) matches Ok((v, n)) ==> spec_encode_puback(v, version) is Ok
            && spec_encode_puback(v, version)->Ok_0.len() <= n
            && spec_encode_property_list(crate::mqtt_proto::puback::puback_properties(v)).len() <= n,
{
    if s.len() > 3 && version == ProtocolVersion::V5 {
        let r = s.skip(2).skip(1);
        if spec_decode_properties(r, puback_allowed(), user_properties_repeat()) is Ok {
            lemma_reason_and_users_section(r, puback_allowed());
        }
    }
}

/// A decoded PUBCOMP encodes again, into no more bytes than it was decoded from.
pub proof fn lemma_decoded_pubcomp_size(s: Seq<u8>, version: ProtocolVersion)
    ensures
        spec_decode_pubcomp(s, version) matches Ok((v, n)) ==> spec_encode_pubcomp(v, version) is Ok
            && spec_encode_pubcomp(v, version)->Ok_0.len() <= n
            && spec_encode_property_list(crate::mqtt_proto::pubcomp::pubcomp_properties(v)).len() <= n,
{
    if s.len() > 3 && version == ProtocolVersion::V5 {
        let r = s.skip(2).skip(1);
        if spec_decode_properties(r, pubcomp_allowed(), user_properties_repeat()) is Ok {
            lemma_reason_and_users_section(r, pubcomp_allowed());
        }
    }
}

/// A decoded PUBREC encodes again, into no more bytes than it was decoded from.
pub proof fn lemma_decoded_pubrec_size(s: Seq<u8>, version: ProtocolVersion)
    ensures
        spec_decode_pubrec(s, version) matches Ok((v, n)) ==> spec_encode_pubrec(v, version) is Ok
            && spec_encode_pubrec(v, version)->Ok_0.len() <= n
            && spec_encode_property_list(crate::mqtt_proto::pubrec::pubrec_properties(v)).len() <= n,
{
    if s.len() > 3 && version == ProtocolVersion::V5 {
        let r = s.skip(2).skip(1);
        if spec_decode_properties(r, pubrec_allowed(), user_properties_repeat()) is Ok {
            lemma_reason_and_users_section(r, pubrec_allowed());
        }
    }
}

/// A decoded PUBREL encodes again, into no more bytes than it was decoded from.
pub proof fn lemma_decoded_pubrel_size(s: Seq<u8>, version: ProtocolVersion)
    ensures
        spec_decode_pubrel(s, version) matches Ok((v, n)) ==> spec_encode_pubrel(v, version) is Ok
            && spec_encode_pubrel(v, version)->Ok_0.len() <= n
            && spec_encode_property_list(crate::mqtt_proto::pubrel::pubrel_properties(v)).len() <= n,
{
    if s.len() > 3 && version == ProtocolVersion::V5 {
        let r = s.skip(2).skip(1);
        if spec_decode_properties(r, pubrel_allowed(), user_properties_repeat()) is Ok {
            lemma_reason_and_users_section(r, pubrel_allowed());
        }
    }
}

/// Decoded UNSUBACK reason codes, one per byte.
proof fn lemma_decoded_unsuback_codes_len(t: Seq<u8>)
    ensures
        spec_decode_unsuback_codes(t) matches Ok(codes) ==> codes.len() == t.len(),
    decreases t.len(),
{
    if t.len() > 0 {
        lemma_decoded_unsuback_codes_len(t.drop_last());
    }
}

/// A decoded UNSUBACK encodes again, into no more bytes than it was decoded from.
pub proof fn lemma_decoded_unsuback_size(s: Seq<u8>, version: ProtocolVersion)
    ensures
        spec_decode_unsuback(s, version) matches Ok((v, n)) ==> spec_encode_unsuback(v, version) is Ok
            && spec_encode_unsuback(v, version)->Ok_0.len() <= n
            && spec_encode_property_list(crate::mqtt_proto::unsuback::unsuback_properties(v)).len() <= n,
{
    if let Ok((v, n)) = spec_decode_unsuback(s, version) {
        if version == ProtocolVersion::V5 {
            lemma_reason_and_users_section(s.skip(2), unsuback_allowed());
            let m = spec_decode_properties(s.skip(2), unsuback_allowed(), user_properties_repeat())->Ok_0.1;
            lemma_decode_properties_wf(s.skip(2), unsuback_allowed(), user_properties_repeat());
            lemma_decoded_unsuback_codes_len(s.skip((2 + m) as int));
            assert(spec_encode_unsuback_codes(v.reason_codes).len() == v.reason_codes.len());
        } else {
            assert(spec_first_failure(v.reason_codes) is None);
        }
    }
}

/// Decoded reason codes, one per byte.
proof fn lemma_decoded_reason_codes_len(t: Seq<u8>, version: ProtocolVersion)
    ensures
        spec_decode_reason_codes(t, version) matches Ok(codes) ==> codes.len() == t.len(),
    decreases t.len(),
{
    if t.len() > 0 {
        lemma_decoded_reason_codes_len(t.drop_last(), version);
    }
}

/// A decoded SUBACK encodes again, into no more bytes than it was decoded from.
pub proof fn lemma_decoded_suback_size(s: Seq<u8>, version: ProtocolVersion)
    ensures
        spec_decode_suback(s, version) matches Ok((v, n)) ==> spec_encode_suback(v, version) is Ok
            && spec_encode_suback(v, version)->Ok_0.len() <= n
            && spec_encode_property_list(crate::mqtt_proto::suback::suback_properties(v)).len() <= n,
{
    if let Ok((v, n)) = spec_decode_suback(s, version) {
        let m: nat = if version == ProtocolVersion::V5 {
            lemma_reason_and_users_section(s.skip(2), suback_allowed());
            spec_decode_properties(s.skip(2), suback_allowed(), user_properties_repeat())->Ok_0.1
        } else {
            0
        };
        lemma_decode_properties_wf(s.skip(2), suback_allowed(), user_properties_repeat());
        lemma_decoded_reason_codes_len(s.skip((2 + m) as int), version);
        assert(spec_encode_reason_codes(v.reason_codes, version).len() == v.reason_codes.len());
    }
}

/// User properties taken from `ps` take no more bytes than `ps`.
proof fn lemma_users_size(ps: Seq<PropertyView>)
    ensures
        encoded_len(user_properties_as_props(spec_user_properties(ps))) <= encoded_len(ps),
        first_unencodable(user_properties_as_props(spec_user_properties(ps))) is None,
{
    broadcast use group_with_id;

    let a = user_properties_as_props(spec_user_properties(ps));
    lemma_user_properties_are_with_id(ps);
    assert forall|id: u8| encoded_len(#[trigger] with_id(a, id)) <= encoded_len(with_id(ps, id)) by {
    }
    lemma_encoded_len_by_id(a, ps);
    lemma_first_unencodable_by_id(a);
    assert(first_unencodable(Seq::<PropertyView>::empty()) is None);
}

/// Decoded topic filters encode again into as many bytes as they were decoded from.
proof fn lemma_decoded_filter_list_len(t: Seq<u8>, acc: Seq<(Seq<u8>, FilterKind)>)
    ensures
        spec_decode_filter_list(t, acc) matches Ok(fs) ==> spec_encode_filter_list(fs).len()
            == spec_encode_filter_list(acc).len() + t.len(),
    decreases t.len(),
{
    if t.len() > 0 {
        crate::mqtt_proto::decode_laws::lemma_decode_byte_str_wf(t);
        if let Ok(Some((raw, k))) = crate::mqtt_proto::filter::spec_decode_filter(t) {
            if 1 <= raw.len() <= t.len() {
                let acc2 = acc.push((raw, k));
                assert(acc2.drop_last() =~= acc);
                lemma_decoded_filter_list_len(t.skip(raw.len() as int), acc2);
            }
        }
    }
}

/// A decoded UNSUBSCRIBE encodes again, into no more bytes than it was decoded from.
pub proof fn lemma_decoded_unsubscribe_size(s: Seq<u8>, version: ProtocolVersion)
    ensures
        spec_decode_unsubscribe(s, version) matches Ok((v, n)) ==> spec_encode_unsubscribe(v, version)
            is Ok && spec_encode_unsubscribe(v, version)->Ok_0.len() <= n
            && spec_encode_property_list(user_properties_as_props(v.user_properties)).len() <= n,
{
    if let Ok((v, n)) = spec_decode_unsubscribe(s, version) {
        let m: nat = if version == ProtocolVersion::V5 {
            let ps = spec_decode_properties(s.skip(2), unsubscribe_allowed(), user_properties_repeat())->Ok_0.0;
            lemma_users_size(ps);
            lemma_section_size(
                s.skip(2),
                unsubscribe_allowed(),
                user_properties_repeat(),
                user_properties_as_props(spec_user_properties(ps)),
            );
            spec_decode_properties(s.skip(2), unsubscribe_allowed(), user_properties_repeat())->Ok_0.1
        } else {
            0
        };
        lemma_decode_properties_wf(s.skip(2), unsubscribe_allowed(), user_properties_repeat());
        lemma_decoded_filter_list_len(s.skip((2 + m) as int), Seq::empty());
    }
}

/// Decoded topic filters with options encode again into as many bytes as they were decoded
/// from.
proof fn lemma_decoded_subscribe_to_list_len(
    t: Seq<u8>,
    version: ProtocolVersion,
    acc: Seq<((Seq<u8>, FilterKind), SubscribeOptions)>,
)
    ensures
        spec_decode_subscribe_to_list(t, version, acc) matches Ok(list) ==> spec_encode_subscribe_to_list(
            list,
            version,
        ).len() == spec_encode_subscribe_to_list(acc, version).len() + t.len(),
    decreases t.len(),
{
    if t.len() > 0 {
        reveal(spec_decode_subscribe_to);
        crate::mqtt_proto::decode_laws::lemma_decode_byte_str_wf(t);
        if let Ok((x, n)) = spec_decode_subscribe_to(t, version) {
            if 1 <= n <= t.len() {
                let acc2 = acc.push(x);
                assert(acc2.drop_last() =~= acc);
                assert(spec_encode_subscribe_to(x, version).len() == n);
                lemma_decoded_subscribe_to_list_len(t.skip(n as int), version, acc2);
            }
        }
    }
}

/// The properties of a SUBSCRIBE taken from `ps` take no more bytes than `ps`.
proof fn lemma_subscribe_properties_size(ps: Seq<PropertyView>)
    requires
        all_properties_wf(ps),
    ensures
        ({
            let a = subscribe_properties(
                SubscribeOtherPropertiesView {
                    subscription_identifier: find_int(ps, 0x0B),
                    user_properties: spec_user_properties(ps),
                },
            );
            &&& encoded_len(a) <= encoded_len(ps)
            &&& first_unencodable(a) is None
        }),
{
    broadcast use group_with_id;

    let a = subscribe_properties(
        SubscribeOtherPropertiesView {
            subscription_identifier: find_int(ps, 0x0B),
            user_properties: spec_user_properties(ps),
        },
    );
    lemma_user_properties_are_with_id(ps);
    lemma_find_property_id(ps, 0x0B);
    crate::mqtt_proto::decode_laws::lemma_found_wf(ps, 0x0B);
    assert forall|id: u8| encoded_len(#[trigger] with_id(a, id)) <= encoded_len(with_id(ps, id)) by {
        lemma_found_len(ps, id);
    }
    lemma_encoded_len_by_id(a, ps);
    lemma_first_unencodable_by_id(a);
    assert(first_unencodable(Seq::<PropertyView>::empty()) is None);
    if let Some(p) = spec_find_property(ps, 0x0B) {
        assert(seq![p].drop_last() =~= Seq::<PropertyView>::empty());
    }
}

/// A decoded SUBSCRIBE encodes again, into no more bytes than it was decoded from.
pub proof fn lemma_decoded_subscribe_size(s: Seq<u8>, version: ProtocolVersion)
    ensures
        spec_decode_subscribe(s, version) matches Ok((v, n)) ==> spec_encode_subscribe(v, version) is Ok
            && spec_encode_subscribe(v, version)->Ok_0.len() <= n
            && spec_encode_property_list(subscribe_properties(v.other_properties)).len() <= n,
{
    if let Ok((v, n)) = spec_decode_subscribe(s, version) {
        let m: nat = if version == ProtocolVersion::V5 {
            lemma_decode_properties_wf(s.skip(2), subscribe_allowed(), user_properties_repeat());
            let ps = spec_decode_properties(s.skip(2), subscribe_allowed(), user_properties_repeat())->Ok_0.0;
            lemma_subscribe_properties_size(ps);
            lemma_section_size(s.skip(2), subscribe_allowed(), user_properties_repeat(), subscribe_properties(v.other_properties));
            spec_decode_properties(s.skip(2), subscribe_allowed(), user_properties_repeat())->Ok_0.1
        } else {
            0
        };
        lemma_decode_properties_wf(s.skip(2), subscribe_allowed(), user_properties_repeat());
        lemma_decoded_subscribe_to_list_len(s.skip((2 + m) as int), version, Seq::empty());
    }
}

/// The properties of a DISCONNECT taken from `ps` take no more bytes than `ps`.
proof fn lemma_disconnect_properties_size(ps: Seq<PropertyView>, v: DisconnectView)
    requires
        v.session_expiry_interval == find_session_expiry(ps),
        v.reason_string == find_bytes(ps, 0x1F),
        v.user_properties == spec_user_properties(ps),
        v.server_reference == find_bytes(ps, 0x1C),
    ensures
        encoded_len(disconnect_properties(v)) <= encoded_len(ps),
        first_unencodable(disconnect_properties(v)) is None,
{
    broadcast use group_with_id;

    let a = disconnect_properties(v);
    lemma_user_properties_are_with_id(ps);
    lemma_find_property_id(ps, 0x11);
    lemma_find_property_id(ps, 0x1F);
    lemma_find_property_id(ps, 0x1C);
    assert forall|id: u8| encoded_len(#[trigger] with_id(a, id)) <= encoded_len(with_id(ps, id)) by {
        lemma_found_len(ps, id);
    }
    lemma_encoded_len_by_id(a, ps);
    lemma_first_unencodable_by_id(a);
    assert(first_unencodable(Seq::<PropertyView>::empty()) is None);
}

/// A decoded DISCONNECT encodes again, into no more bytes than it was decoded from.
pub proof fn lemma_decoded_disconnect_size(s: Seq<u8>, version: ProtocolVersion)
    ensures
        spec_decode_disconnect(s, version) matches Ok((v, n)) ==> spec_encode_disconnect(v, version)
            is Ok && spec_encode_disconnect(v, version)->Ok_0.len() <= n
            && spec_encode_property_list(disconnect_properties(v)).len() <= n,
{
    if s.len() > 1 && version == ProtocolVersion::V5 {
        if let Ok((v, n)) = spec_decode_disconnect(s, version) {
            let ps = spec_decode_properties(s.skip(1), disconnect_allowed(), user_properties_repeat())->Ok_0.0;
            lemma_disconnect_properties_size(ps, v);
            lemma_section_size(s.skip(1), disconnect_allowed(), user_properties_repeat(), disconnect_properties(v));
        }
    }
}

/// The properties of an AUTH taken from `ps` take no more bytes than `ps`.
proof fn lemma_auth_properties_size(ps: Seq<PropertyView>, v: AuthView)
    requires
        spec_authentication_of(find_bytes(ps, 0x15), find_bytes(ps, 0x16)) == Ok::<
            Option<(Seq<u8>, Option<Seq<u8>>)>,
            crate::mqtt_proto::DecodeErrorView,
        >(v.authentication),
        v.reason_string == find_bytes(ps, 0x1F),
        v.user_properties == spec_user_properties(ps),
    ensures
        encoded_len(auth_properties(v)) <= encoded_len(ps),
        first_unencodable(auth_properties(v)) is None,
{
    broadcast use group_with_id;

    let a = auth_properties(v);
    lemma_user_properties_are_with_id(ps);
    lemma_find_property_id(ps, 0x15);
    lemma_find_property_id(ps, 0x16);
    lemma_find_property_id(ps, 0x1F);
    if let Some((m, Some(d))) = v.authentication {
        let x = PropertyView::AuthenticationMethod(m);
        let y = PropertyView::AuthenticationData(d);
        assert(crate::mqtt_proto::auth::authentication_props(v.authentication) =~= seq![x] + seq![y]);
    }
    assert forall|id: u8| encoded_len(#[trigger] with_id(a, id)) <= encoded_len(with_id(ps, id)) by {
        lemma_found_len(ps, id);
    }
    lemma_encoded_len_by_id(a, ps);
    lemma_first_unencodable_by_id(a);
    assert(first_unencodable(Seq::<PropertyView>::empty()) is None);
}

/// A decoded AUTH encodes again, into no more bytes than it was decoded from, or into two when
/// it was decoded from none.
pub proof fn lemma_decoded_auth_size(flags: u8, s: Seq<u8>, version: ProtocolVersion)
    ensures
        spec_decode_auth(flags, s, version) matches Ok((v, n)) ==> spec_encode_auth(v) is Ok
            && spec_encode_auth(v)->Ok_0.len() <= (if n == 0 {
            2
        } else {
            n
        }) && spec_encode_property_list(auth_properties(v)).len() <= n,
{
    if let Ok((v, n)) = spec_decode_auth(flags, s, version) {
        if s.len() > 0 {
            let ps = spec_decode_properties(s.skip(1), auth_allowed(), user_properties_repeat())->Ok_0.0;
            lemma_auth_properties_size(ps, v);
            lemma_section_size(s.skip(1), auth_allowed(), user_properties_repeat(), auth_properties(v));
        } else {
            assert(auth_properties(v) =~= Seq::<PropertyView>::empty());
            assert(spec_encode_property_list(Seq::<PropertyView>::empty()) == Seq::<u8>::empty());
            crate::mqtt_proto::lemma_encode_varint(0);
        }
    }
}

/// Whether `piece` is empty, or holds just the property of `ps` with identifier `id`.
pub open spec fn found_or_nothing(ps: Seq<PropertyView>, piece: Seq<PropertyView>, id: u8) -> bool {
    piece.len() == 0 || (piece.len() == 1 && spec_find_property(ps, id) == Some(piece[0]))
}

/// A piece that is empty or holds the property of `ps` with identifier `id` takes, by each
/// identifier, no more bytes than `ps` takes by `id`, and nothing by any other identifier.
pub proof fn lemma_found_piece(ps: Seq<PropertyView>, piece: Seq<PropertyView>, id: u8)
    requires
        found_or_nothing(ps, piece, id),
    ensures
        forall|x: u8|
            encoded_len(#[trigger] with_id(piece, x)) <= if x == id {
                encoded_len(with_id(ps, id))
            } else {
                0
            },
{
    broadcast use group_with_id;

    lemma_found_len(ps, id);
    lemma_find_property_id(ps, id);
    if piece.len() == 1 {
        assert(piece =~= seq![piece[0]]);
    } else {
        assert(piece =~= Seq::<PropertyView>::empty());
    }
}

/// The properties of a PUBLISH taken from well-formed `ps` take no more bytes than `ps`.
#[verifier::rlimit(40)]
proof fn lemma_publish_properties_size(ps: Seq<PropertyView>)
    requires
        all_properties_wf(ps),
    ensures
        encoded_len(publish_properties(publish_properties_from(ps))) <= encoded_len(ps),
        first_unencodable(publish_properties(publish_properties_from(ps))) is None,
{
    let v = publish_properties_from(ps);
    let a = publish_properties(v);
    let p1 = crate::mqtt_proto::connack::prop_if(v.payload_is_utf8, PropertyView::PayloadIsUtf8(true));
    let p2 = match v.message_expiry_interval {
        Some(i) => seq![PropertyView::MessageExpiryInterval(i)],
        None => Seq::empty(),
    };
    let p3 = match v.topic_alias {
        Some(x) => seq![PropertyView::TopicAlias(x)],
        None => Seq::empty(),
    };
    let p4 = match v.response_topic {
        Some(t) => seq![PropertyView::ResponseTopic(t)],
        None => Seq::empty(),
    };
    let p5 = match v.correlation_data {
        Some(c) => seq![PropertyView::CorrelationData(c)],
        None => Seq::empty(),
    };
    let u = user_properties_as_props(v.user_properties);
    let ids = crate::mqtt_proto::publish::subscription_identifiers_as_props(v.subscription_identifiers);
    let p8 = opt_str_prop(v.content_type, 0x03);
    assert(a == p1 + p2 + p3 + p4 + p5 + u + ids + p8);
    lemma_find_property_id(ps, 0x01);
    lemma_find_property_id(ps, 0x02);
    lemma_find_property_id(ps, 0x23);
    lemma_find_property_id(ps, 0x08);
    lemma_find_property_id(ps, 0x09);
    lemma_find_property_id(ps, 0x03);
    lemma_found_piece(ps, p1, 0x01);
    lemma_found_piece(ps, p2, 0x02);
    lemma_found_piece(ps, p3, 0x23);
    lemma_found_piece(ps, p4, 0x08);
    lemma_found_piece(ps, p5, 0x09);
    lemma_found_piece(ps, p8, 0x03);
    lemma_user_properties_are_with_id(ps);
    lemma_subscription_identifiers_are_with_id(ps);
    assert forall|x: u8| encoded_len(#[trigger] with_id(a, x)) <= encoded_len(with_id(ps, x)) by {
        broadcast use group_with_id;

        assert(encoded_len(with_id(a, x)) == encoded_len(with_id(p1, x)) + encoded_len(with_id(p2, x))
            + encoded_len(with_id(p3, x)) + encoded_len(with_id(p4, x)) + encoded_len(with_id(p5, x))
            + encoded_len(with_id(u, x)) + encoded_len(with_id(ids, x)) + encoded_len(with_id(p8, x)));
    }
    lemma_encoded_len_by_id(a, ps);
    assert(with_id(a, 0x0B) == with_id(ps, 0x0B)) by {
        broadcast use group_with_id;

    }
    lemma_first_unencodable_by_id(a);
    lemma_first_unencodable_by_id(ps);
    lemma_wf_encodable(ps);
}

/// A decoded PUBLISH encodes again, into no more bytes than it was decoded from.
pub proof fn lemma_decoded_publish_size(flags: u8, s: Seq<u8>, version: ProtocolVersion)
    ensures
        spec_decode_publish(flags, s, version) matches Ok((v, n)) ==> spec_encode_publish(v, version)
            is Ok && spec_encode_publish(v, version)->Ok_0.len() <= n
            && spec_encode_property_list(publish_properties(v.other_properties)).len() <= n,
{
    crate::mqtt_proto::decode_laws::lemma_decode_byte_str_wf(s);
    if let Ok((v, n)) = spec_decode_publish(flags, s, version) {
        let t = v.topic_name;
        let (pdq, k) = spec_decode_publish_qos(flags, s.skip(t.len() as int))->Ok_0;
        let r = s.skip((t.len() + k) as int);
        if version == ProtocolVersion::V5 {
            lemma_decode_properties_wf(r, publish_allowed(), publish_repeat());
            let (ps, m) = spec_decode_properties(r, publish_allowed(), publish_repeat())->Ok_0;
            lemma_publish_properties_size(ps);
            lemma_section_size(r, publish_allowed(), publish_repeat(), publish_properties(v.other_properties));
        }
    }
}

/// The limits of a CONNACK taken from `ps`, by identifier, take no more bytes than `ps`.
proof fn lemma_connack_limits_size(ps: Seq<PropertyView>, auth: Option<(Seq<u8>, Option<Seq<u8>>)>)
    ensures
        forall|x: u8|
            encoded_len(#[trigger] with_id(connack_limits(connack_properties_from(ps, auth)), x)) <= if x
                == 0x11 || x == 0x21 || x == 0x24 || x == 0x25 || x == 0x27 {
                encoded_len(with_id(ps, x))
            } else {
                0
            },
        with_id(connack_limits(connack_properties_from(ps, auth)), 0x0B) == Seq::<PropertyView>::empty(),
{
    let v = connack_properties_from(ps, auth);
    let a1 = opt_prop(
        match v.session_expiry_interval {
            Some(i) => Some(PropertyView::SessionExpiryInterval(i)),
            None => None,
        },
    );
    let a2 = prop_if(v.receive_maximum < u16::MAX, PropertyView::ReceiveMaximum(v.receive_maximum));
    let a3 = prop_if(!(v.maximum_qos is ExactlyOnce), PropertyView::MaximumQoS(v.maximum_qos));
    let a4 = prop_if(!v.retain_available, PropertyView::RetainAvailable(false));
    let a5 = prop_if(v.maximum_packet_size < u32::MAX, PropertyView::MaximumPacketSize(v.maximum_packet_size));
    assert(connack_limits(v) == a1 + a2 + a3 + a4 + a5);
    lemma_find_property_id(ps, 0x11);
    lemma_find_property_id(ps, 0x21);
    lemma_find_property_id(ps, 0x24);
    lemma_find_property_id(ps, 0x25);
    lemma_find_property_id(ps, 0x27);
    lemma_found_piece(ps, a1, 0x11);
    lemma_found_piece(ps, a2, 0x21);
    lemma_found_piece(ps, a3, 0x24);
    lemma_found_piece(ps, a4, 0x25);
    lemma_found_piece(ps, a5, 0x27);
    assert forall|x: u8| #![trigger with_id(connack_limits(v), x)] encoded_len(with_id(connack_limits(v), x))
        == encoded_len(with_id(a1, x)) + encoded_len(with_id(a2, x)) + encoded_len(with_id(a3, x))
        + encoded_len(with_id(a4, x)) + encoded_len(with_id(a5, x)) by {
        broadcast use group_with_id;

    }
    assert(with_id(connack_limits(v), 0x0B) == Seq::<PropertyView>::empty()) by {
        broadcast use group_with_id;

    }
}

/// The client identifier, topic alias limit, reason string and user properties of a CONNACK
/// taken from `ps`, by identifier, take no more bytes than `ps`.
proof fn lemma_connack_info_size(ps: Seq<PropertyView>, auth: Option<(Seq<u8>, Option<Seq<u8>>)>)
    ensures
        forall|x: u8|
            encoded_len(#[trigger] with_id(connack_info(connack_properties_from(ps, auth)), x)) <= if x
                == 0x12 || x == 0x22 || x == 0x1F || x == 0x26 {
                encoded_len(with_id(ps, x))
            } else {
                0
            },
        with_id(connack_info(connack_properties_from(ps, auth)), 0x0B) == Seq::<PropertyView>::empty(),
{
    let v = connack_properties_from(ps, auth);
    let a1 = opt_str_prop(v.assigned_client_id, 0x12);
    let a2 = prop_if(v.topic_alias_maximum > 0, PropertyView::TopicAliasMaximum(v.topic_alias_maximum));
    let a3 = opt_str_prop(v.reason_string, 0x1F);
    let u = user_properties_as_props(v.user_properties);
    assert(connack_info(v) == a1 + a2 + a3 + u);
    lemma_find_property_id(ps, 0x12);
    lemma_find_property_id(ps, 0x22);
    lemma_find_property_id(ps, 0x1F);
    lemma_found_piece(ps, a1, 0x12);
    lemma_found_piece(ps, a2, 0x22);
    lemma_found_piece(ps, a3, 0x1F);
    lemma_user_properties_are_with_id(ps);
    assert forall|x: u8| #![trigger with_id(connack_info(v), x)] encoded_len(with_id(connack_info(v), x))
        == encoded_len(with_id(a1, x)) + encoded_len(with_id(a2, x)) + encoded_len(with_id(a3, x))
        + encoded_len(with_id(u, x)) by {
        broadcast use group_with_id;

    }
    assert forall|x: u8| encoded_len(#[trigger] with_id(u, x)) <= if x == 0x26 {
        encoded_len(with_id(ps, x))
    } else {
        0
    } by {
        broadcast use group_with_id;

    }
    assert(with_id(connack_info(v), 0x0B) == Seq::<PropertyView>::empty()) by {
        broadcast use group_with_id;

    }
}

/// The features and keep alive of a CONNACK taken from `ps`, by identifier, take no more bytes
/// than `ps`.
proof fn lemma_connack_features_size(ps: Seq<PropertyView>, auth: Option<(Seq<u8>, Option<Seq<u8>>)>)
    ensures
        forall|x: u8|
            encoded_len(#[trigger] with_id(connack_features(connack_properties_from(ps, auth)), x)) <= if x
                == 0x28 || x == 0x2A || x == 0x29 || x == 0x13 {
                encoded_len(with_id(ps, x))
            } else {
                0
            },
        with_id(connack_features(connack_properties_from(ps, auth)), 0x0B) == Seq::<PropertyView>::empty(),
{
    let v = connack_properties_from(ps, auth);
    let a1 = prop_if(!v.wildcard_subscription_available, PropertyView::WildcardSubscriptionAvailable(false));
    let a2 = prop_if(!v.shared_subscription_available, PropertyView::SharedSubscriptionAvailable(false));
    let a3 = prop_if(
        !v.subscription_identifiers_available,
        PropertyView::SubscriptionIdentifiersAvailable(false),
    );
    let a4 = opt_prop(
        match v.server_keep_alive {
            Some(k) => Some(PropertyView::ServerKeepAlive(k)),
            None => None,
        },
    );
    assert(connack_features(v) == a1 + a2 + a3 + a4);
    lemma_find_property_id(ps, 0x28);
    lemma_find_property_id(ps, 0x2A);
    lemma_find_property_id(ps, 0x29);
    lemma_find_property_id(ps, 0x13);
    lemma_found_piece(ps, a1, 0x28);
    lemma_found_piece(ps, a2, 0x2A);
    lemma_found_piece(ps, a3, 0x29);
    lemma_found_piece(ps, a4, 0x13);
    assert forall|x: u8| #![trigger with_id(connack_features(v), x)] encoded_len(
        with_id(connack_features(v), x),
    ) == encoded_len(with_id(a1, x)) + encoded_len(with_id(a2, x)) + encoded_len(with_id(a3, x))
        + encoded_len(with_id(a4, x)) by {
        broadcast use group_with_id;

    }
    assert(with_id(connack_features(v), 0x0B) == Seq::<PropertyView>::empty()) by {
        broadcast use group_with_id;

    }
}

/// The response information, server reference and authentication of a CONNACK taken from `ps`,
/// by identifier, take no more bytes than `ps`.
proof fn lemma_connack_references_size(ps: Seq<PropertyView>, auth: Option<(Seq<u8>, Option<Seq<u8>>)>)
    requires
        spec_authentication_of(find_bytes(ps, 0x15), find_bytes(ps, 0x16)) == Ok::<
            Option<(Seq<u8>, Option<Seq<u8>>)>,
            crate::mqtt_proto::DecodeErrorView,
        >(auth),
    ensures
        forall|x: u8|
            encoded_len(#[trigger] with_id(connack_references(connack_properties_from(ps, auth)), x))
                <= if x == 0x1A || x == 0x1C || x == 0x15 || x == 0x16 {
                encoded_len(with_id(ps, x))
            } else {
                0
            },
        with_id(connack_references(connack_properties_from(ps, auth)), 0x0B) == Seq::<PropertyView>::empty(),
{
    let v = connack_properties_from(ps, auth);
    let a1 = opt_str_prop(v.response_information, 0x1A);
    let a2 = opt_str_prop(v.server_reference, 0x1C);
    lemma_find_property_id(ps, 0x1A);
    lemma_find_property_id(ps, 0x1C);
    lemma_find_property_id(ps, 0x15);
    lemma_find_property_id(ps, 0x16);
    let (a3, a4) = match auth {
        Some((m, Some(d))) => (seq![PropertyView::AuthenticationMethod(m)], seq![PropertyView::AuthenticationData(d)]),
        Some((m, None)) => (seq![PropertyView::AuthenticationMethod(m)], Seq::<PropertyView>::empty()),
        None => (Seq::<PropertyView>::empty(), Seq::<PropertyView>::empty()),
    };
    assert(authentication_props(auth) =~= a3 + a4);
    assert(connack_references(v) == a1 + a2 + (a3 + a4));
    lemma_found_piece(ps, a1, 0x1A);
    lemma_found_piece(ps, a2, 0x1C);
    lemma_found_piece(ps, a3, 0x15);
    lemma_found_piece(ps, a4, 0x16);
    assert forall|x: u8| #![trigger with_id(connack_references(v), x)] encoded_len(
        with_id(connack_references(v), x),
    ) == encoded_len(with_id(a1, x)) + encoded_len(with_id(a2, x)) + encoded_len(with_id(a3, x))
        + encoded_len(with_id(a4, x)) by {
        broadcast use group_with_id;

    }
    assert(with_id(connack_references(v), 0x0B) == Seq::<PropertyView>::empty()) by {
        broadcast use group_with_id;

    }
}

/// The properties of a CONNACK taken from `ps` take no more bytes than `ps`.
proof fn lemma_connack_properties_size(ps: Seq<PropertyView>, auth: Option<(Seq<u8>, Option<Seq<u8>>)>)
    requires
        spec_authentication_of(find_bytes(ps, 0x15), find_bytes(ps, 0x16)) == Ok::<
            Option<(Seq<u8>, Option<Seq<u8>>)>,
            crate::mqtt_proto::DecodeErrorView,
        >(auth),
    ensures
        encoded_len(connack_properties(connack_properties_from(ps, auth))) <= encoded_len(ps),
        first_unencodable(connack_properties(connack_properties_from(ps, auth))) is None,
{
    let v = connack_properties_from(ps, auth);
    let a = connack_properties(v);
    let l = connack_limits(v);
    let i = connack_info(v);
    let f = connack_features(v);
    let r = connack_references(v);
    lemma_connack_limits_size(ps, auth);
    lemma_connack_info_size(ps, auth);
    lemma_connack_features_size(ps, auth);
    lemma_connack_references_size(ps, auth);
    assert forall|x: u8| encoded_len(#[trigger] with_id(a, x)) <= encoded_len(with_id(ps, x)) by {
        broadcast use group_with_id;

        assert(encoded_len(with_id(a, x)) == encoded_len(with_id(l, x)) + encoded_len(with_id(i, x))
            + encoded_len(with_id(f, x)) + encoded_len(with_id(r, x)));
    }
    lemma_encoded_len_by_id(a, ps);
    lemma_first_unencodable_by_id(a);
    assert(with_id(a, 0x0B) == Seq::<PropertyView>::empty()) by {
        broadcast use group_with_id;

        assert(Seq::<PropertyView>::empty() + Seq::<PropertyView>::empty() + Seq::<PropertyView>::empty()
            + Seq::<PropertyView>::empty() =~= Seq::<PropertyView>::empty());
    }
    assert(first_unencodable(Seq::<PropertyView>::empty()) is None);
}

/// A decoded CONNACK encodes again, into no more bytes than it was decoded from.
pub proof fn lemma_decoded_connack_size(s: Seq<u8>, version: ProtocolVersion)
    ensures
        spec_decode_connack(s, version) matches Ok((v, n)) ==> spec_encode_connack(v, version) is Ok
            && spec_encode_connack(v, version)->Ok_0.len() <= n
            && spec_encode_property_list(connack_properties(v.other_properties)).len() <= n,
{
    if let Ok((v, n)) = spec_decode_connack(s, version) {
        if version == ProtocolVersion::V5 {
            let (ps, m) = spec_decode_properties(s.skip(2), connack_allowed(), user_properties_repeat())->Ok_0;
            let auth = spec_authentication_of(find_bytes(ps, 0x15), find_bytes(ps, 0x16))->Ok_0;
            lemma_connack_properties_size(ps, auth);
            lemma_section_size(s.skip(2), connack_allowed(), user_properties_repeat(), connack_properties(v.other_properties));
        }
    }
}

/// A decoded packet body encodes again, into no more than `VARINT_MAX` bytes, and so do its
/// properties, when it was decoded from no more.
#[verifier::spinoff_prover]
#[verifier::rlimit(80)]
proof fn lemma_decoded_body_encodes(first_byte: u8, s: Seq<u8>, version: ProtocolVersion)
    requires
        s.len() <= VARINT_MAX,
    ensures
        spec_decode_packet(first_byte, s, version) matches Ok(p) ==> spec_encode_body(p, version) is Ok
            && spec_encode_body(p, version)->Ok_0.len() <= VARINT_MAX
            && crate::mqtt_proto::packet::properties_len(p) <= VARINT_MAX,
{
    let flags = first_byte & 0x0F;
    lemma_decoded_auth_size(flags, s, version);
    lemma_decoded_connack_size(s, version);
    lemma_decoded_disconnect_size(s, version);
    lemma_decoded_puback_size(s, version);
    lemma_decoded_pubcomp_size(s, version);
    lemma_decoded_publish_size(flags, s, version);
    lemma_decoded_suback_size(s, version);
    lemma_decoded_subscribe_size(s, version);
    lemma_decoded_unsubscribe_size(s, version);
    lemma_decoded_pubrec_size(s, version);
    lemma_decoded_pubrel_size(s, version);
    lemma_decoded_unsuback_size(s, version);
}

/// A decoded packet encodes again, and its encoding fits this machine.
pub proof fn lemma_decoded_packet_encodes(s: Seq<u8>, version: ProtocolVersion)
    ensures
        spec_decode_full(s, version) matches Ok(p) ==> spec_encode_packet(p, version) is Ok
            && packet_fits(p, version),
{
    if let Ok(Some((first_byte, remaining_length, n))) = crate::mqtt_proto::spec_decode_fixed_header(s) {
        crate::mqtt_proto::decode_laws::lemma_decode_varint_bound(s.skip(1));
        if s.skip(n as int).len() == remaining_length {
            lemma_decoded_body_encodes(first_byte, s.skip(n as int), version);
        }
    }
}

} // verus!
