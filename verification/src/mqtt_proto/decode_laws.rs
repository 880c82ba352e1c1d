//! What decoding gives: well-formed values, whose encodings are no longer than the bytes they
//! were decoded from.
use vstd::prelude::*;

use crate::buffer_pool::{be_u16, u16_be_bytes, u32_be_bytes};
use crate::mqtt_proto::binary_data::{is_length_prefixed, length_prefixed, spec_split_length_prefixed};
use crate::mqtt_proto::byte_str::{is_byte_str, spec_decode_byte_str};
use crate::mqtt_proto::properties::{
    is_bool_id, is_str_id, is_u16_id, is_u32_id, property_wf, spec_decode_property,
    spec_decode_property_list, spec_decode_properties, spec_encode_property,
    spec_encode_property_list, spec_encode_properties, spec_take_byte_str, PropertyView,
};
use crate::mqtt_proto::topic::spec_decode_topic;
use crate::mqtt_proto::{lemma_encode_varint, spec_decode_varint, spec_encode_varint, VARINT_MAX};
use crate::mqtt_proto::auth::{auth_allowed, spec_authentication_of, spec_decode_auth, AuthView};
use crate::mqtt_proto::codec_laws::{
    carried_packet, carried_reason_codes, carried_subscribe_to, filter_wf, packet_wf,
    subscribe_to_wf, topic_wf, v3_reason_code, v3_subscribe_reason_code,
};
use crate::mqtt_proto::codes::SubscribeReasonCode;
use crate::mqtt_proto::connack::{connack_allowed, spec_decode_connack, ConnAckView, ConnectReasonCode};
use crate::mqtt_proto::disconnect::{disconnect_allowed, spec_decode_disconnect, DisconnectView};
use crate::mqtt_proto::filter::{spec_decode_filter, FilterKind};
use crate::mqtt_proto::packet::{packet_encodable_for, spec_decode_full, spec_decode_packet, PacketView};
use crate::mqtt_proto::puback::{puback_allowed, spec_decode_puback, PubAckView};
use crate::mqtt_proto::pubcomp::{pubcomp_allowed, spec_decode_pubcomp, PubCompView};
use crate::mqtt_proto::pubrec::{pubrec_allowed, spec_decode_pubrec};
use crate::mqtt_proto::pubrel::{pubrel_allowed, spec_decode_pubrel};
use crate::mqtt_proto::unsuback::{spec_decode_unsuback, unsuback_allowed};
use crate::mqtt_proto::publish::{
    publish_allowed, publish_repeat, spec_decode_publish, spec_decode_publish_qos, PublishView,
};
use crate::mqtt_proto::suback::{spec_decode_reason_codes, spec_decode_suback, suback_allowed, SubAckView};
use crate::mqtt_proto::subscribe::{
    spec_decode_subscribe, spec_decode_subscribe_options, spec_decode_subscribe_to,
    spec_decode_subscribe_to_list, subscribe_allowed, subscribe_options_default, SubscribeOptions,
    SubscribeView,
};
use crate::mqtt_proto::unsubscribe::{
    spec_decode_filter_list, spec_decode_unsubscribe, unsubscribe_allowed, UnsubscribeView,
};
use crate::mqtt_proto::properties::user_properties_repeat;
use crate::mqtt_proto::ProtocolVersion;
use crate::mqtt_proto::packet_fields::{
    find_bytes, find_int, find_keep_alive, find_session_expiry, opt_binary_wf, opt_str_wf,
    user_properties_wf,
};
use crate::mqtt_proto::properties::{
    property_id, spec_find_property, spec_subscription_identifiers, spec_user_properties,
};
use crate::mqtt_proto::property::{KeepAlive, SessionExpiryInterval};

verus! {

broadcast use crate::mqtt_proto::property::group_nonzero;

/// A decoded variable byte integer fits, and its shortest encoding is no longer than the bytes
/// it was decoded from.
pub proof fn lemma_decode_varint_bound(s: Seq<u8>)
    ensures
        spec_decode_varint(s) matches Ok(Some((v, n))) ==> {
            &&& v <= VARINT_MAX
            &&& 1 <= n <= 4
            &&& n <= s.len()
            &&& spec_encode_varint(v as nat).len() <= n
        },
{
    if let Ok(Some((v, n))) = spec_decode_varint(s) {
        if s[0] < 128 {
        } else if s[1] < 128 {
            assert((s[0] - 128) + 128 * s[1] <= 16383) by (nonlinear_arith)
                requires
                    128 <= s[0] < 256,
                    s[1] < 128,
            ;
        } else if s[2] < 128 {
            assert((s[0] - 128) + 128 * (s[1] - 128) + 16384 * s[2] <= 2097151) by (nonlinear_arith)
                requires
                    128 <= s[0] < 256,
                    128 <= s[1] < 256,
                    s[2] < 128,
            ;
        } else {
            assert((s[0] - 128) + 128 * (s[1] - 128) + 16384 * (s[2] - 128) + 2097152 * s[3] <= VARINT_MAX)
                by (nonlinear_arith)
                requires
                    128 <= s[0] < 256,
                    128 <= s[1] < 256,
                    128 <= s[2] < 256,
                    s[3] < 128,
            ;
        }
        lemma_encode_varint(v as nat);
    }
}

/// A decoded UTF-8 string is a length-prefixed UTF-8 string, taken from the start of what it was
/// decoded from.
pub proof fn lemma_decode_byte_str_wf(s: Seq<u8>)
    ensures
        spec_decode_byte_str(s) matches Ok(Some(raw)) ==> is_byte_str(raw) && raw.len() <= s.len()
            && raw == s.take(raw.len() as int),
{
    if let Some(raw) = spec_split_length_prefixed(s) {
        assert(raw[0] == s[0] && raw[1] == s[1]);
        assert(be_u16(raw) == be_u16(s));
    }
}

/// A decoded property is well-formed, and its encoding is no longer than the bytes it was
/// decoded from.
pub proof fn lemma_decode_property_wf(s: Seq<u8>)
    ensures
        spec_decode_property(s) matches Ok((p, n)) ==> property_wf(p) && spec_encode_property(p).len()
            <= n,
{
    reveal(spec_decode_property);
    crate::mqtt_proto::properties::lemma_decode_property_len(s);
    if s.len() > 0 {
        let id = s[0];
        let r = s.skip(1);
        if let Ok((p, n)) = spec_decode_property(s) {
            if is_bool_id(id) || is_u32_id(id) || is_u16_id(id) || id == 0x24 {
                crate::buffer_pool::lemma_be_u16_roundtrip(0, Seq::empty());
                crate::buffer_pool::lemma_be_u32_roundtrip(0, Seq::empty());
                assert(u16_be_bytes(0).len() == 2);
                assert(u32_be_bytes(0).len() == 4);
            } else if is_str_id(id) {
                lemma_decode_byte_str_wf(r);
            } else if id == 0x08 {
                lemma_decode_byte_str_wf(r);
            } else if id == 0x09 || id == 0x16 {
                let raw = spec_split_length_prefixed(r)->0;
                assert(raw[0] == r[0] && raw[1] == r[1]);
                assert(be_u16(raw) == be_u16(r));
                assert(is_length_prefixed(raw));
                crate::mqtt_proto::binary_data::lemma_is_length_prefixed(raw);
            } else if id == 0x0B {
                lemma_decode_varint_bound(r);
            } else if id == 0x26 {
                lemma_decode_byte_str_wf(r);
                let name = spec_take_byte_str(r)->Ok_0;
                lemma_decode_byte_str_wf(r.skip(name.len() as int));
            }
        }
    }
}

/// The properties decoded after the well-formed `acc` are well-formed, and their encodings are
/// no longer than those of `acc` and the bytes decoded.
pub proof fn lemma_decode_property_list_wf(
    s: Seq<u8>,
    allowed: Seq<u8>,
    repeatable: Seq<u8>,
    acc: Seq<PropertyView>,
)
    requires
        forall|i: int| 0 <= i < acc.len() ==> property_wf(#[trigger] acc[i]),
    ensures
        spec_decode_property_list(s, allowed, repeatable, acc) matches Ok(ps) ==> {
            &&& forall|i: int| 0 <= i < ps.len() ==> property_wf(#[trigger] ps[i])
            &&& spec_encode_property_list(ps).len() <= spec_encode_property_list(acc).len() + s.len()
        },
    decreases s.len(),
{
    if s.len() > 0 {
        if let Ok((p, n)) = spec_decode_property(s) {
            if 1 <= n <= s.len() {
                if let Ok(acc2) = crate::mqtt_proto::properties::spec_add_property(acc, p, allowed, repeatable) {
                    lemma_decode_property_wf(s);
                    assert(acc2 == acc.push(p));
                    assert forall|i: int| 0 <= i < acc2.len() implies property_wf(#[trigger] acc2[i]) by {
                        if i < acc.len() {
                            assert(acc2[i] == acc[i]);
                        }
                    }
                    assert(acc2.drop_last() =~= acc);
                    lemma_decode_property_list_wf(s.skip(n as int), allowed, repeatable, acc2);
                }
            }
        }
    }
}

/// The properties of a decoded property section are well-formed, and encoding them again takes
/// no more bytes than the section did.
pub proof fn lemma_decode_properties_wf(s: Seq<u8>, allowed: Seq<u8>, repeatable: Seq<u8>)
    ensures
        spec_decode_properties(s, allowed, repeatable) matches Ok((ps, n)) ==> {
            &&& forall|i: int| 0 <= i < ps.len() ==> property_wf(#[trigger] ps[i])
            &&& spec_encode_property_list(ps).len() <= VARINT_MAX
            &&& n <= s.len()
            &&& spec_encode_varint(spec_encode_property_list(ps).len()).len()
                + spec_encode_property_list(ps).len() <= n
        },
{
    if let Ok((ps, n)) = spec_decode_properties(s, allowed, repeatable) {
        lemma_decode_varint_bound(s);
        let (len, k) = spec_decode_varint(s)->Ok_0->Some_0;
        let body = s.subrange(k as int, k + len);
        lemma_decode_property_list_wf(body, allowed, repeatable, Seq::empty());
        let total = spec_encode_property_list(ps).len();
        assert(total <= len);
        lemma_varint_len_monotonic(total, len as nat);
    }
}

/// A smaller value takes no more bytes as a variable byte integer.
pub proof fn lemma_varint_len_monotonic(a: nat, b: nat)
    requires
        a <= b,
        b <= VARINT_MAX,
    ensures
        spec_encode_varint(a).len() <= spec_encode_varint(b).len(),
{
    lemma_encode_varint(a);
    lemma_encode_varint(b);
}

// ---------------------------------------------------------------------------------------------
// The fields taken from well-formed properties
// ---------------------------------------------------------------------------------------------

/// Whether every property of `ps` is well-formed.
pub open spec fn all_properties_wf(ps: Seq<PropertyView>) -> bool {
    forall|i: int| 0 <= i < ps.len() ==> property_wf(#[trigger] ps[i])
}

/// What is found in a list of well-formed properties is well-formed and has the identifier
/// looked for.
pub proof fn lemma_found_wf(ps: Seq<PropertyView>, id: u8)
    requires
        all_properties_wf(ps),
    ensures
        spec_find_property(ps, id) matches Some(p) ==> property_wf(p) && property_id(p) == id,
    decreases ps.len(),
{
    if ps.len() > 0 && property_id(ps.last()) != id {
        assert forall|i: int| 0 <= i < ps.drop_last().len() implies property_wf(#[trigger] ps.drop_last()[i]) by {
            assert(ps.drop_last()[i] == ps[i]);
        }
        lemma_found_wf(ps.drop_last(), id);
    }
}

/// The user properties of a list of well-formed properties are well-formed.
pub proof fn lemma_user_properties_wf(ps: Seq<PropertyView>)
    requires
        all_properties_wf(ps),
    ensures
        user_properties_wf(spec_user_properties(ps)),
    decreases ps.len(),
{
    if ps.len() > 0 {
        assert forall|i: int| 0 <= i < ps.drop_last().len() implies property_wf(#[trigger] ps.drop_last()[i]) by {
            assert(ps.drop_last()[i] == ps[i]);
        }
        lemma_user_properties_wf(ps.drop_last());
        let u = spec_user_properties(ps.drop_last());
        assert(property_wf(ps[ps.len() - 1]));
        if let PropertyView::UserProperty(n, v) = ps.last() {
            assert forall|i: int| 0 <= i < u.push((n, v)).len() implies is_byte_str(#[trigger] u.push((n, v))[i].0)
                && is_byte_str(u.push((n, v))[i].1) by {
                if i < u.len() {
                    assert(u.push((n, v))[i] == u[i]);
                }
            }
        }
    }
}

/// The subscription identifiers of a list of well-formed properties fit a variable byte integer.
pub proof fn lemma_subscription_identifiers_bound(ps: Seq<PropertyView>)
    requires
        all_properties_wf(ps),
    ensures
        forall|i: int|
            0 <= i < spec_subscription_identifiers(ps).len() ==> #[trigger] spec_subscription_identifiers(
                ps,
            )[i] <= VARINT_MAX,
    decreases ps.len(),
{
    if ps.len() > 0 {
        assert forall|i: int| 0 <= i < ps.drop_last().len() implies property_wf(#[trigger] ps.drop_last()[i]) by {
            assert(ps.drop_last()[i] == ps[i]);
        }
        lemma_subscription_identifiers_bound(ps.drop_last());
        let ids = spec_subscription_identifiers(ps.drop_last());
        assert(property_wf(ps[ps.len() - 1]));
        if let PropertyView::SubscriptionIdentifier(v) = ps.last() {
            assert forall|i: int| 0 <= i < ids.push(v).len() implies #[trigger] ids.push(v)[i] <= VARINT_MAX by {
                if i < ids.len() {
                    assert(ids.push(v)[i] == ids[i]);
                }
            }
        }
    }
}

/// The values a packet takes from a list of well-formed properties are in range.
pub proof fn lemma_fields_wf(ps: Seq<PropertyView>)
    requires
        all_properties_wf(ps),
    ensures
        forall|id: u8| is_str_id(id) ==> opt_str_wf(#[trigger] find_bytes(ps, id)),
        find_bytes(ps, 0x08) matches Some(t) ==> topic_wf(t),
        find_bytes(ps, 0x09) matches Some(c) ==> c.len() <= 65535,
        opt_binary_wf(find_bytes(ps, 0x16)),
        find_session_expiry(ps) matches Some(SessionExpiryInterval::Duration(d)) ==> d != u32::MAX,
        find_int(ps, 0x21) matches Some(v) ==> v != 0 && v <= 65535,
        find_int(ps, 0x22) matches Some(v) ==> v <= 65535,
        find_int(ps, 0x23) matches Some(v) ==> v != 0 && v <= 65535,
        find_int(ps, 0x27) matches Some(v) ==> v != 0,
        find_keep_alive(ps) matches Some(KeepAlive::Duration(d)) ==> d@ != 0,
        user_properties_wf(spec_user_properties(ps)),
        forall|i: int|
            0 <= i < spec_subscription_identifiers(ps).len() ==> #[trigger] spec_subscription_identifiers(
                ps,
            )[i] <= VARINT_MAX,
{
    assert forall|id: u8| is_str_id(id) implies opt_str_wf(#[trigger] find_bytes(ps, id)) by {
        lemma_found_wf(ps, id);
    }
    lemma_found_wf(ps, 0x08);
    lemma_found_wf(ps, 0x09);
    lemma_found_wf(ps, 0x16);
    lemma_found_wf(ps, 0x11);
    lemma_found_wf(ps, 0x21);
    lemma_found_wf(ps, 0x22);
    lemma_found_wf(ps, 0x23);
    lemma_found_wf(ps, 0x27);
    lemma_found_wf(ps, 0x13);
    lemma_user_properties_wf(ps);
    lemma_subscription_identifiers_bound(ps);
}

// ---------------------------------------------------------------------------------------------
// Decoded packets are well-formed
// ---------------------------------------------------------------------------------------------

/// The properties of a decoded property section are well-formed, with all that follows from it.
proof fn lemma_section_wf(s: Seq<u8>, allowed: Seq<u8>, repeatable: Seq<u8>)
    ensures
        spec_decode_properties(s, allowed, repeatable) matches Ok((ps, n)) ==> all_properties_wf(ps),
{
    lemma_decode_properties_wf(s, allowed, repeatable);
}

/// A decoded AUTH is well-formed.
pub proof fn lemma_decoded_auth_wf(flags: u8, s: Seq<u8>, version: ProtocolVersion)
    ensures
        spec_decode_auth(flags, s, version) matches Ok((v, n)) ==> packet_wf(PacketView::Auth(v))
            && version == ProtocolVersion::V5,
{
    if version == ProtocolVersion::V5 && s.len() > 0 {
        lemma_section_wf(s.skip(1), auth_allowed(), user_properties_repeat());
        if let Ok((ps, n)) = spec_decode_properties(s.skip(1), auth_allowed(), user_properties_repeat()) {
            lemma_fields_wf(ps);
            assert(opt_str_wf(find_bytes(ps, 0x15)));
            assert(opt_str_wf(find_bytes(ps, 0x1F)));
        }
    }
}

/// A decoded CONNACK is well-formed, and all of it is what its version carries.
pub proof fn lemma_decoded_connack_wf(s: Seq<u8>, version: ProtocolVersion)
    ensures
        spec_decode_connack(s, version) matches Ok((v, n)) ==> packet_wf(PacketView::ConnAck(v))
            && carried_packet(PacketView::ConnAck(v), version) == PacketView::ConnAck(v),
{
    if s.len() >= 2 && version == ProtocolVersion::V5 {
        lemma_section_wf(s.skip(2), connack_allowed(), user_properties_repeat());
        if let Ok((ps, n)) = spec_decode_properties(s.skip(2), connack_allowed(), user_properties_repeat()) {
            lemma_fields_wf(ps);
            assert(opt_str_wf(find_bytes(ps, 0x15)));
            assert(opt_str_wf(find_bytes(ps, 0x12)));
            assert(opt_str_wf(find_bytes(ps, 0x1F)));
            assert(opt_str_wf(find_bytes(ps, 0x1A)));
            assert(opt_str_wf(find_bytes(ps, 0x1C)));
        }
    }
}

/// A decoded DISCONNECT is well-formed, and all of it is what its version carries.
pub proof fn lemma_decoded_disconnect_wf(s: Seq<u8>, version: ProtocolVersion)
    ensures
        spec_decode_disconnect(s, version) matches Ok((v, n)) ==> packet_wf(PacketView::Disconnect(v))
            && carried_packet(PacketView::Disconnect(v), version) == PacketView::Disconnect(v),
{
    if s.len() > 1 && version == ProtocolVersion::V5 {
        lemma_section_wf(s.skip(1), disconnect_allowed(), user_properties_repeat());
        if let Ok((ps, n)) = spec_decode_properties(s.skip(1), disconnect_allowed(), user_properties_repeat()) {
            lemma_fields_wf(ps);
            assert(opt_str_wf(find_bytes(ps, 0x1F)));
            assert(opt_str_wf(find_bytes(ps, 0x1C)));
        }
    }
}

/// A decoded PUBACK is well-formed, and all of it is what its version carries.
pub proof fn lemma_decoded_puback_wf(s: Seq<u8>, version: ProtocolVersion)
    ensures
        spec_decode_puback(s, version) matches Ok((v, n)) ==> packet_wf(PacketView::PubAck(v))
            && carried_packet(PacketView::PubAck(v), version) == PacketView::PubAck(v),
{
    if s.len() > 3 && version == ProtocolVersion::V5 {
        lemma_section_wf(s.skip(2).skip(1), puback_allowed(), user_properties_repeat());
        if let Ok((ps, n)) = spec_decode_properties(s.skip(2).skip(1), puback_allowed(), user_properties_repeat()) {
            lemma_fields_wf(ps);
            assert(opt_str_wf(find_bytes(ps, 0x1F)));
        }
    }
}

/// A decoded PUBCOMP is well-formed, and all of it is what its version carries.
pub proof fn lemma_decoded_pubcomp_wf(s: Seq<u8>, version: ProtocolVersion)
    ensures
        spec_decode_pubcomp(s, version) matches Ok((v, n)) ==> packet_wf(PacketView::PubComp(v))
            && carried_packet(PacketView::PubComp(v), version) == PacketView::PubComp(v),
{
    if s.len() > 3 && version == ProtocolVersion::V5 {
        lemma_section_wf(s.skip(2).skip(1), pubcomp_allowed(), user_properties_repeat());
        if let Ok((ps, n)) = spec_decode_properties(s.skip(2).skip(1), pubcomp_allowed(), user_properties_repeat()) {
            lemma_fields_wf(ps);
            assert(opt_str_wf(find_bytes(ps, 0x1F)));
        }
    }
}

/// A decoded PUBREC is well-formed, and all of it is what its version carries.
pub proof fn lemma_decoded_pubrec_wf(s: Seq<u8>, version: ProtocolVersion)
    ensures
        spec_decode_pubrec(s, version) matches Ok((v, n)) ==> packet_wf(PacketView::PubRec(v))
            && carried_packet(PacketView::PubRec(v), version) == PacketView::PubRec(v),
{
    if s.len() > 3 && version == ProtocolVersion::V5 {
        lemma_section_wf(s.skip(2).skip(1), pubrec_allowed(), user_properties_repeat());
        if let Ok((ps, n)) = spec_decode_properties(s.skip(2).skip(1), pubrec_allowed(), user_properties_repeat()) {
            lemma_fields_wf(ps);
            assert(opt_str_wf(find_bytes(ps, 0x1F)));
        }
    }
}

/// A decoded PUBREL is well-formed, and all of it is what its version carries.
pub proof fn lemma_decoded_pubrel_wf(s: Seq<u8>, version: ProtocolVersion)
    ensures
        spec_decode_pubrel(s, version) matches Ok((v, n)) ==> packet_wf(PacketView::PubRel(v))
            && carried_packet(PacketView::PubRel(v), version) == PacketView::PubRel(v),
{
    if s.len() > 3 && version == ProtocolVersion::V5 {
        lemma_section_wf(s.skip(2).skip(1), pubrel_allowed(), user_properties_repeat());
        if let Ok((ps, n)) = spec_decode_properties(s.skip(2).skip(1), pubrel_allowed(), user_properties_repeat()) {
            lemma_fields_wf(ps);
            assert(opt_str_wf(find_bytes(ps, 0x1F)));
        }
    }
}

/// A decoded UNSUBACK is well-formed, and all of it is what its version carries.
pub proof fn lemma_decoded_unsuback_wf(s: Seq<u8>, version: ProtocolVersion)
    ensures
        spec_decode_unsuback(s, version) matches Ok((v, n)) ==> packet_wf(PacketView::UnsubAck(v))
            && carried_packet(PacketView::UnsubAck(v), version) == PacketView::UnsubAck(v),
{
    if let Ok((v, n)) = spec_decode_unsuback(s, version) {
        if version == ProtocolVersion::V5 {
            lemma_section_wf(s.skip(2), unsuback_allowed(), user_properties_repeat());
            let (ps, m) = spec_decode_properties(s.skip(2), unsuback_allowed(), user_properties_repeat())->Ok_0;
            lemma_fields_wf(ps);
            assert(opt_str_wf(find_bytes(ps, 0x1F)));
        }
    }
}

/// A decoded PUBLISH is well-formed, and all of it is what its version carries.
pub proof fn lemma_decoded_publish_wf(flags: u8, s: Seq<u8>, version: ProtocolVersion)
    ensures
        spec_decode_publish(flags, s, version) matches Ok((v, n)) ==> packet_wf(PacketView::Publish(v))
            && carried_packet(PacketView::Publish(v), version) == PacketView::Publish(v),
{
    lemma_decode_byte_str_wf(s);
    if let Ok(Some(t)) = spec_decode_topic(s) {
        if let Ok((pdq, k)) = spec_decode_publish_qos(flags, s.skip(t.len() as int)) {
            let r = s.skip((t.len() + k) as int);
            if version == ProtocolVersion::V5 {
                lemma_section_wf(r, publish_allowed(), publish_repeat());
                if let Ok((ps, n)) = spec_decode_properties(r, publish_allowed(), publish_repeat()) {
                    lemma_fields_wf(ps);
                    assert(opt_str_wf(find_bytes(ps, 0x03)));
                }
            }
        }
    }
}

/// Decoded reason codes of a v3 SUBACK are all that v3 carries of them.
proof fn lemma_decoded_reason_codes(s: Seq<u8>, version: ProtocolVersion)
    ensures
        spec_decode_reason_codes(s, version) matches Ok(codes) ==> carried_reason_codes(codes, version)
            == codes,
    decreases s.len(),
{
    if s.len() > 0 {
        lemma_decoded_reason_codes(s.drop_last(), version);
        if let Ok(codes) = spec_decode_reason_codes(s, version) {
            let prev = spec_decode_reason_codes(s.drop_last(), version)->Ok_0;
            assert(codes == prev.push(codes.last()));
            if version == ProtocolVersion::V3 {
                assert(carried_reason_codes(codes, version) =~= carried_reason_codes(prev, version).push(
                    v3_subscribe_reason_code(codes.last()),
                ));
            }
        }
    }
}

/// A decoded SUBACK is well-formed, and all of it is what its version carries.
pub proof fn lemma_decoded_suback_wf(s: Seq<u8>, version: ProtocolVersion)
    ensures
        spec_decode_suback(s, version) matches Ok((v, n)) ==> packet_wf(PacketView::SubAck(v))
            && carried_packet(PacketView::SubAck(v), version) == PacketView::SubAck(v),
{
    if let Ok((v, n)) = spec_decode_suback(s, version) {
        if version == ProtocolVersion::V5 {
            lemma_section_wf(s.skip(2), suback_allowed(), user_properties_repeat());
            let (ps, m) = spec_decode_properties(s.skip(2), suback_allowed(), user_properties_repeat())->Ok_0;
            lemma_fields_wf(ps);
            assert(opt_str_wf(find_bytes(ps, 0x1F)));
        } else {
            lemma_decoded_reason_codes(s.skip(2), version);
            assert(spec_user_properties(Seq::<PropertyView>::empty()) == Seq::<(Seq<u8>, Seq<u8>)>::empty());
            assert(spec_find_property(Seq::<PropertyView>::empty(), 0x1F) is None);
        }
    }
}

/// Decoded topic filters, after well-formed ones, are well-formed.
proof fn lemma_decoded_filter_list(s: Seq<u8>, acc: Seq<(Seq<u8>, FilterKind)>)
    requires
        forall|i: int| 0 <= i < acc.len() ==> filter_wf(#[trigger] acc[i]),
    ensures
        spec_decode_filter_list(s, acc) matches Ok(fs) ==> forall|i: int|
            0 <= i < fs.len() ==> filter_wf(#[trigger] fs[i]),
    decreases s.len(),
{
    if s.len() > 0 {
        lemma_decode_byte_str_wf(s);
        if let Ok(Some((raw, k))) = spec_decode_filter(s) {
            if 1 <= raw.len() <= s.len() {
                let acc2 = acc.push((raw, k));
                assert forall|i: int| 0 <= i < acc2.len() implies filter_wf(#[trigger] acc2[i]) by {
                    if i < acc.len() {
                        assert(acc2[i] == acc[i]);
                    }
                }
                lemma_decoded_filter_list(s.skip(raw.len() as int), acc2);
            }
        }
    }
}

/// A decoded UNSUBSCRIBE is well-formed, and all of it is what its version carries.
pub proof fn lemma_decoded_unsubscribe_wf(s: Seq<u8>, version: ProtocolVersion)
    ensures
        spec_decode_unsubscribe(s, version) matches Ok((v, n)) ==> packet_wf(PacketView::Unsubscribe(v))
            && carried_packet(PacketView::Unsubscribe(v), version) == PacketView::Unsubscribe(v),
{
    if let Ok((v, n)) = spec_decode_unsubscribe(s, version) {
        let m = if version == ProtocolVersion::V5 {
            lemma_section_wf(s.skip(2), unsubscribe_allowed(), user_properties_repeat());
            let (ps, m) = spec_decode_properties(s.skip(2), unsubscribe_allowed(), user_properties_repeat())->Ok_0;
            lemma_fields_wf(ps);
            m
        } else {
            assert(spec_user_properties(Seq::<PropertyView>::empty()) == Seq::<(Seq<u8>, Seq<u8>)>::empty());
            0nat
        };
        lemma_decoded_filter_list(s.skip((2 + m) as int), Seq::empty());
    }
}

/// Decoded topic filters with options, after well-formed ones that are all their version
/// carries, are the same.
proof fn lemma_decoded_subscribe_to_list(
    s: Seq<u8>,
    version: ProtocolVersion,
    acc: Seq<((Seq<u8>, FilterKind), SubscribeOptions)>,
)
    requires
        forall|i: int|
            0 <= i < acc.len() ==> subscribe_to_wf(#[trigger] acc[i]) && carried_subscribe_to(acc[i], version)
                == acc[i],
    ensures
        spec_decode_subscribe_to_list(s, version, acc) matches Ok(list) ==> forall|i: int|
            0 <= i < list.len() ==> subscribe_to_wf(#[trigger] list[i]) && carried_subscribe_to(
                list[i],
                version,
            ) == list[i],
    decreases s.len(),
{
    if s.len() > 0 {
        reveal(spec_decode_subscribe_to);
        lemma_decode_byte_str_wf(s);
        if let Ok((t, n)) = spec_decode_subscribe_to(s, version) {
            if 1 <= n <= s.len() {
                let acc2 = acc.push(t);
                assert forall|i: int| 0 <= i < acc2.len() implies subscribe_to_wf(#[trigger] acc2[i])
                    && carried_subscribe_to(acc2[i], version) == acc2[i] by {
                    if i < acc.len() {
                        assert(acc2[i] == acc[i]);
                    }
                }
                lemma_decoded_subscribe_to_list(s.skip(n as int), version, acc2);
            }
        }
    }
}

/// A decoded SUBSCRIBE is well-formed, and all of it is what its version carries.
pub proof fn lemma_decoded_subscribe_wf(s: Seq<u8>, version: ProtocolVersion)
    ensures
        spec_decode_subscribe(s, version) matches Ok((v, n)) ==> packet_wf(PacketView::Subscribe(v))
            && carried_packet(PacketView::Subscribe(v), version) == PacketView::Subscribe(v),
{
    if let Ok((v, n)) = spec_decode_subscribe(s, version) {
        let m = if version == ProtocolVersion::V5 {
            lemma_section_wf(s.skip(2), subscribe_allowed(), user_properties_repeat());
            let (ps, m) = spec_decode_properties(s.skip(2), subscribe_allowed(), user_properties_repeat())->Ok_0;
            lemma_fields_wf(ps);
            lemma_found_wf(ps, 0x0B);
            m
        } else {
            0nat
        };
        lemma_decoded_subscribe_to_list(s.skip((2 + m) as int), version, Seq::empty());
        if version == ProtocolVersion::V3 {
            assert(v.subscribe_to.map_values(
                |t: ((Seq<u8>, FilterKind), SubscribeOptions)| carried_subscribe_to(t, version),
            ) =~= v.subscribe_to);
        }
    }
}

/// A decoded packet body is well-formed, can be encoded for its version, and is all that its
/// version carries.
proof fn lemma_decoded_body_wf(first_byte: u8, s: Seq<u8>, version: ProtocolVersion)
    ensures
        spec_decode_packet(first_byte, s, version) matches Ok(p) ==> packet_wf(p) && packet_encodable_for(
            p,
            version,
        ) && carried_packet(p, version) == p,
{
    let flags = first_byte & 0x0F;
    lemma_decoded_auth_wf(flags, s, version);
    lemma_decoded_connack_wf(s, version);
    lemma_decoded_disconnect_wf(s, version);
    lemma_decoded_puback_wf(s, version);
    lemma_decoded_pubcomp_wf(s, version);
    lemma_decoded_publish_wf(flags, s, version);
    lemma_decoded_suback_wf(s, version);
    lemma_decoded_subscribe_wf(s, version);
    lemma_decoded_unsubscribe_wf(s, version);
    lemma_decoded_pubrec_wf(s, version);
    lemma_decoded_pubrel_wf(s, version);
    lemma_decoded_unsuback_wf(s, version);
}

/// A decoded packet is well-formed, can be encoded for its version, and is all that its version
/// carries.
pub proof fn lemma_decoded_packet_wf(s: Seq<u8>, version: ProtocolVersion)
    ensures
        spec_decode_full(s, version) matches Ok(p) ==> packet_wf(p) && packet_encodable_for(p, version)
            && carried_packet(p, version) == p,
{
    if let Ok(Some((first_byte, remaining_length, n))) = crate::mqtt_proto::spec_decode_fixed_header(s) {
        lemma_decoded_body_wf(first_byte, s.skip(n as int), version);
    }
}

} // verus!
