//! MQTT packets: decoding a whole packet, and encoding one with its fixed header.
//!
//! Ref: 2 MQTT Control Packet format
use vstd::prelude::*;

use crate::buffer_pool::accumulators::try_put_u8;
use crate::buffer_pool::{BytesAccumulator, Shared, SingleAccumulator};
use crate::mqtt_proto::auth::{auth_properties, spec_decode_auth, spec_encode_auth, Auth, AuthView};
use crate::mqtt_proto::codes::QoS;
use crate::mqtt_proto::connack::{
    connack_properties, spec_decode_connack, spec_encode_connack, ConnAck, ConnAckView,
};
use crate::mqtt_proto::disconnect::{
    disconnect_properties, spec_decode_disconnect, spec_encode_disconnect, Disconnect, DisconnectView,
};
use crate::mqtt_proto::codec_laws::{carried_packet, lemma_packet_roundtrip};
use crate::mqtt_proto::packet_wf::{packet_decodable, packet_is_wf};
use crate::mqtt_proto::pingreq::PingReq;
use crate::mqtt_proto::pingresp::PingResp;
use crate::mqtt_proto::properties::{spec_encode_property_list, user_properties_as_props};
use crate::mqtt_proto::puback::{
    puback_properties, spec_decode_puback, spec_encode_puback, PubAck, PubAckView,
};
use crate::mqtt_proto::pubcomp::{
    pubcomp_properties, spec_decode_pubcomp, spec_encode_pubcomp, PubComp, PubCompView,
};
use crate::mqtt_proto::pubrec::{
    pubrec_properties, spec_decode_pubrec, spec_encode_pubrec, PubRec, PubRecView,
};
use crate::mqtt_proto::pubrel::{
    pubrel_properties, spec_decode_pubrel, spec_encode_pubrel, PubRel, PubRelView,
};
use crate::mqtt_proto::unsuback::{
    spec_decode_unsuback, spec_encode_unsuback, unsuback_properties, UnsubAck, UnsubAckView,
};
use crate::mqtt_proto::publish::{
    publish_properties, spec_decode_publish, spec_encode_publish, Publish, PublishView,
};
use crate::mqtt_proto::suback::{
    spec_decode_suback, spec_encode_suback, suback_properties, SubAck, SubAckView,
};
use crate::mqtt_proto::subscribe::{
    spec_decode_subscribe, spec_encode_subscribe, subscribe_properties, Subscribe, SubscribeView,
};
use crate::mqtt_proto::unsubscribe::{
    spec_decode_unsubscribe, spec_encode_unsubscribe, Unsubscribe, UnsubscribeView,
};
use crate::mqtt_proto::{
    decode_fixed_header, encode_remaining_length, spec_decode_fixed_header, spec_encode_varint,
    DecodeError, DecodeErrorView, EncodeError, ProtocolVersion, VARINT_MAX,
};

verus! {

/// An MQTT packet.
#[derive(Debug, PartialEq, Eq)]
pub enum Packet {
    /// Ref: 3.15 AUTH – Authentication exchange
    Auth(Auth),
    /// Ref: 3.2 CONNACK – Connect acknowledgement
    ConnAck(ConnAck),
    /// Ref: 3.14 DISCONNECT - Disconnect notification
    Disconnect(Disconnect),
    /// Ref: 3.12 PINGREQ – PING request
    PingReq(PingReq),
    /// Ref: 3.13 PINGRESP – PING response
    PingResp(PingResp),
    /// Ref: 3.4 PUBACK – Publish acknowledgement
    PubAck(PubAck),
    /// Ref: 3.7 PUBCOMP – Publish complete (QoS 2 delivery part 3)
    PubComp(PubComp),
    /// Ref: 3.3 PUBLISH – Publish message
    Publish(Publish),
    /// Ref: 3.5 PUBREC – Publish received (QoS 2 delivery part 1)
    PubRec(PubRec),
    /// Ref: 3.6 PUBREL – Publish release (QoS 2 delivery part 2)
    PubRel(PubRel),
    /// Ref: 3.9 SUBACK – Subscribe acknowledgement
    SubAck(SubAck),
    /// Ref: 3.8 SUBSCRIBE - Subscribe request
    Subscribe(Subscribe),
    /// Ref: 3.11 UNSUBACK – Unsubscribe acknowledgement
    UnsubAck(UnsubAck),
    /// Ref: 3.10 UNSUBSCRIBE – Unsubscribe request
    Unsubscribe(Unsubscribe),
}

/// A packet taken as the views of its contents.
pub enum PacketView {
    Auth(AuthView),
    ConnAck(ConnAckView),
    Disconnect(DisconnectView),
    PingReq,
    PingResp,
    PubAck(PubAckView),
    PubComp(PubCompView),
    Publish(PublishView),
    PubRec(PubRecView),
    PubRel(PubRelView),
    SubAck(SubAckView),
    Subscribe(SubscribeView),
    UnsubAck(UnsubAckView),
    Unsubscribe(UnsubscribeView),
}

impl View for Packet {
    type V = PacketView;

    open spec fn view(&self) -> PacketView {
        match self {
            Packet::Auth(p) => PacketView::Auth(p@),
            Packet::ConnAck(p) => PacketView::ConnAck(p@),
            Packet::Disconnect(p) => PacketView::Disconnect(p@),
            Packet::PingReq(_) => PacketView::PingReq,
            Packet::PingResp(_) => PacketView::PingResp,
            Packet::PubAck(p) => PacketView::PubAck(p@),
            Packet::PubComp(p) => PacketView::PubComp(p@),
            Packet::Publish(p) => PacketView::Publish(p@),
            Packet::PubRec(p) => PacketView::PubRec(p@),
            Packet::PubRel(p) => PacketView::PubRel(p@),
            Packet::SubAck(p) => PacketView::SubAck(p@),
            Packet::Subscribe(p) => PacketView::Subscribe(p@),
            Packet::UnsubAck(p) => PacketView::UnsubAck(p@),
            Packet::Unsubscribe(p) => PacketView::Unsubscribe(p@),
        }
    }
}

/// A body decoder's result, required to have taken the whole body.
pub open spec fn whole_body<T>(r: Result<(T, nat), DecodeErrorView>, len: nat) -> Result<T, DecodeErrorView> {
    match r {
        Err(e) => Err(e),
        Ok((v, n)) => if n == len {
            Ok(v)
        } else {
            Err(DecodeErrorView::TrailingGarbage)
        },
    }
}

/// The packet of the view `v` decoded by `r`.
pub open spec fn wrap<T>(r: Result<T, DecodeErrorView>, f: spec_fn(T) -> PacketView) -> Result<PacketView, DecodeErrorView> {
    match r {
        Err(e) => Err(e),
        Ok(v) => Ok(f(v)),
    }
}

/// Decodes a packet whose first byte is `first_byte` and whose body is `s`. The packet type is
/// the high nibble of the first byte; the low nibble holds flags that must be 0 except for
/// PUBLISH and 2 for PUBREL, SUBSCRIBE and UNSUBSCRIBE. The body must be taken whole.
pub open spec fn spec_decode_packet(first_byte: u8, s: Seq<u8>, version: ProtocolVersion) -> Result<
    PacketView,
    DecodeErrorView,
> {
    let packet_type = first_byte & 0xF0;
    let flags = first_byte & 0x0F;
    if packet_type == 0xF0 && flags == 0 {
        wrap(whole_body(spec_decode_auth(flags, s, version), s.len()), |v| PacketView::Auth(v))
    } else if packet_type == 0x20 && flags == 0 {
        wrap(whole_body(spec_decode_connack(s, version), s.len()), |v| PacketView::ConnAck(v))
    } else if packet_type == 0xE0 && flags == 0 {
        wrap(whole_body(spec_decode_disconnect(s, version), s.len()), |v| PacketView::Disconnect(v))
    } else if packet_type == 0xC0 && flags == 0 {
        if s.len() == 0 {
            Ok(PacketView::PingReq)
        } else {
            Err(DecodeErrorView::TrailingGarbage)
        }
    } else if packet_type == 0xD0 && flags == 0 {
        if s.len() == 0 {
            Ok(PacketView::PingResp)
        } else {
            Err(DecodeErrorView::TrailingGarbage)
        }
    } else if packet_type == 0x40 && flags == 0 {
        wrap(whole_body(spec_decode_puback(s, version), s.len()), |v| PacketView::PubAck(v))
    } else if packet_type == 0x70 && flags == 0 {
        wrap(whole_body(spec_decode_pubcomp(s, version), s.len()), |v| PacketView::PubComp(v))
    } else if packet_type == 0x30 {
        wrap(whole_body(spec_decode_publish(flags, s, version), s.len()), |v| PacketView::Publish(v))
    } else if packet_type == 0x90 && flags == 0 {
        wrap(whole_body(spec_decode_suback(s, version), s.len()), |v| PacketView::SubAck(v))
    } else if packet_type == 0x80 && flags == 2 {
        wrap(whole_body(spec_decode_subscribe(s, version), s.len()), |v| PacketView::Subscribe(v))
    } else if packet_type == 0xA0 && flags == 2 {
        wrap(whole_body(spec_decode_unsubscribe(s, version), s.len()), |v| PacketView::Unsubscribe(v))
    } else if packet_type == 0x50 && flags == 0 {
        wrap(whole_body(spec_decode_pubrec(s, version), s.len()), |v| PacketView::PubRec(v))
    } else if packet_type == 0x60 && flags == 2 {
        wrap(whole_body(spec_decode_pubrel(s, version), s.len()), |v| PacketView::PubRel(v))
    } else if packet_type == 0xB0 && flags == 0 {
        wrap(whole_body(spec_decode_unsuback(s, version), s.len()), |v| PacketView::UnsubAck(v))
    } else {
        Err(
            DecodeErrorView::UnrecognizedPacket {
                packet_type,
                flags,
                remaining_length: s.len() as usize,
            },
        )
    }
}

/// Decodes a whole packet, fixed header included, that fills `s` exactly.
pub open spec fn spec_decode_full(s: Seq<u8>, version: ProtocolVersion) -> Result<PacketView, DecodeErrorView> {
    match spec_decode_fixed_header(s) {
        Err(e) => Err(e),
        Ok(None) => Err(DecodeErrorView::IncompletePacket),
        Ok(Some((first_byte, remaining_length, n))) => {
            let body = s.skip(n as int);
            if body.len() < remaining_length {
                Err(DecodeErrorView::IncompletePacket)
            } else if body.len() > remaining_length {
                Err(DecodeErrorView::TrailingGarbage)
            } else {
                spec_decode_packet(first_byte, body, version)
            }
        },
    }
}

/// The flags of the first byte of a PUBLISH: DUP, QoS and retain.
pub open spec fn spec_publish_flags(v: PublishView) -> u8 {
    let (qos, dup, _) = v.packet_identifier_dup_qos;
    ((match qos {
        QoS::AtMostOnce => 0u8,
        QoS::AtLeastOnce => 2u8,
        QoS::ExactlyOnce => 4u8,
    }) + (if dup && !(qos is AtMostOnce) {
        8u8
    } else {
        0u8
    }) + (if v.retain {
        1u8
    } else {
        0u8
    })) as u8
}

/// The packet type that the protocol gives each kind of packet, in the high nibble of its first
/// byte.
///
/// Ref: 2.1.2 MQTT Control Packet type
pub open spec fn control_packet_type(p: PacketView) -> u8 {
    match p {
        PacketView::ConnAck(_) => 2,
        PacketView::Publish(_) => 3,
        PacketView::PubAck(_) => 4,
        PacketView::PubRec(_) => 5,
        PacketView::PubRel(_) => 6,
        PacketView::PubComp(_) => 7,
        PacketView::Subscribe(_) => 8,
        PacketView::SubAck(_) => 9,
        PacketView::Unsubscribe(_) => 10,
        PacketView::UnsubAck(_) => 11,
        PacketView::PingReq => 12,
        PacketView::PingResp => 13,
        PacketView::Disconnect(_) => 14,
        PacketView::Auth(_) => 15,
    }
}

/// An encoded packet's first byte holds its control packet type in the high nibble; the low
/// nibble is 2 for PUBREL, SUBSCRIBE and UNSUBSCRIBE and 0 for every kind but PUBLISH. A packet
/// decodes only as the kind that the high nibble of its first byte names, and only with those
/// flags.
///
/// Ref: 2.1.2 MQTT Control Packet type; 2.1.3 Flags
pub proof fn lemma_first_byte_packet_type(p: PacketView, first_byte: u8, s: Seq<u8>, version: ProtocolVersion)
    ensures
        spec_first_byte(p) >> 4 == control_packet_type(p),
        !(p is Publish) ==> spec_first_byte(p) & 0x0F == (if p is PubRel || p is Subscribe
            || p is Unsubscribe {
            2u8
        } else {
            0u8
        }),
        spec_decode_packet(first_byte, s, version) matches Ok(q) ==> {
            &&& first_byte >> 4 == control_packet_type(q)
            &&& !(q is Publish) ==> first_byte & 0x0F == spec_first_byte(q) & 0x0F
        },
{
    let fb = spec_first_byte(p);
    if let PacketView::Publish(v) = p {
        lemma_publish_first_byte(v);
        assert(fb & 0xF0 == 0x30 ==> fb >> 4 == 3) by (bit_vector);
    } else {
        assert(fb == 0xF0 || fb == 0x20 || fb == 0xE0 || fb == 0xC0 || fb == 0xD0 || fb == 0x40 || fb
            == 0x70 || fb == 0x50 || fb == 0x62 || fb == 0x90 || fb == 0x82 || fb == 0xB0 || fb == 0xA2);
    }
    let t = first_byte & 0xF0;
    let f = first_byte & 0x0F;
    assert(first_byte >> 4 == t >> 4 && (t == 0x20 ==> t >> 4 == 2) && (t == 0x30 ==> t >> 4 == 3)
        && (t == 0x40 ==> t >> 4 == 4) && (t == 0x50 ==> t >> 4 == 5) && (t == 0x60 ==> t >> 4 == 6)
        && (t == 0x70 ==> t >> 4 == 7) && (t == 0x80 ==> t >> 4 == 8) && (t == 0x90 ==> t >> 4 == 9)
        && (t == 0xA0 ==> t >> 4 == 10) && (t == 0xB0 ==> t >> 4 == 11) && (t == 0xC0 ==> t >> 4
        == 12) && (t == 0xD0 ==> t >> 4 == 13) && (t == 0xE0 ==> t >> 4 == 14) && (t == 0xF0 ==> t
        >> 4 == 15)) by (bit_vector)
        requires
            t == first_byte & 0xF0,
    ;
    assert(0xF0u8 >> 4 == 15 && 0x20u8 >> 4 == 2 && 0xE0u8 >> 4 == 14 && 0xC0u8 >> 4 == 12 && 0xD0u8
        >> 4 == 13 && 0x40u8 >> 4 == 4 && 0x70u8 >> 4 == 7 && 0x50u8 >> 4 == 5 && 0x62u8 >> 4 == 6
        && 0x90u8 >> 4 == 9 && 0x82u8 >> 4 == 8 && 0xB0u8 >> 4 == 11 && 0xA2u8 >> 4 == 10 && 0x62u8
        & 0x0F == 2 && 0x82u8 & 0x0F == 2 && 0xA2u8 & 0x0F == 2 && 0xF0u8 & 0x0F == 0 && 0x20u8 & 0x0F
        == 0 && 0xE0u8 & 0x0F == 0 && 0xC0u8 & 0x0F == 0 && 0xD0u8 & 0x0F == 0 && 0x40u8 & 0x0F == 0
        && 0x70u8 & 0x0F == 0 && 0x50u8 & 0x0F == 0 && 0x90u8 & 0x0F == 0 && 0xB0u8 & 0x0F == 0)
        by (bit_vector);
}

/// The first byte of an encoded PUBLISH is 0x30 with retain in bit 0, the QoS in bits 1 and 2,
/// and DUP in bit 3, which QoS 0 never sets.
///
/// Ref: 3.3.1 PUBLISH Fixed Header
pub proof fn lemma_publish_first_byte(v: PublishView)
    ensures
        ({
            let fb = spec_first_byte(PacketView::Publish(v));
            let (qos, dup, _) = v.packet_identifier_dup_qos;
            &&& fb & 0xF0 == 0x30
            &&& (fb & 0x01 != 0) == v.retain
            &&& (fb & 0x08 != 0) == (dup && !(qos is AtMostOnce))
            &&& fb & 0x06 == (match qos {
                QoS::AtMostOnce => 0x00u8,
                QoS::AtLeastOnce => 0x02u8,
                QoS::ExactlyOnce => 0x04u8,
            })
            &&& fb == (0x30u8 | (if v.retain {
                0x01u8
            } else {
                0x00u8
            }) | (match qos {
                QoS::AtMostOnce => 0x00u8,
                QoS::AtLeastOnce => 0x02u8,
                QoS::ExactlyOnce => 0x04u8,
            }) | (if dup && !(qos is AtMostOnce) {
                0x08u8
            } else {
                0x00u8
            }))
        }),
{
    let fb = spec_first_byte(PacketView::Publish(v));
    let f = spec_publish_flags(v);
    let (qos, dup, _) = v.packet_identifier_dup_qos;
    let r: u8 = if v.retain {
        0x01u8
    } else {
        0x00u8
    };
    let q: u8 = match qos {
        QoS::AtMostOnce => 0x00u8,
        QoS::AtLeastOnce => 0x02u8,
        QoS::ExactlyOnce => 0x04u8,
    };
    let d: u8 = if dup && !(qos is AtMostOnce) {
        0x08u8
    } else {
        0x00u8
    };
    assert(f == (q + d + r) as u8);
    assert(fb == (0x30 + f) as u8);
    assert(fb & 0xF0 == 0x30 && (fb & 0x01 != 0) == (r == 1) && (fb & 0x08 != 0) == (d == 8) && fb
        & 0x06 == q && fb == (0x30u8 | r | q | d)) by (bit_vector)
        requires
            f == (q + d + r) as u8,
            fb == (0x30 + f) as u8,
            q == 0 || q == 2 || q == 4,
            d == 0 || d == 8,
            r == 0 || r == 1,
    ;
}

/// The first byte of a packet: its type, and its flags.
pub open spec fn spec_first_byte(p: PacketView) -> u8 {
    match p {
        PacketView::Auth(_) => 0xF0,
        PacketView::ConnAck(_) => 0x20,
        PacketView::Disconnect(_) => 0xE0,
        PacketView::PingReq => 0xC0,
        PacketView::PingResp => 0xD0,
        PacketView::PubAck(_) => 0x40,
        PacketView::PubComp(_) => 0x70,
        PacketView::Publish(v) => (0x30 + spec_publish_flags(v)) as u8,
        PacketView::PubRec(_) => 0x50,
        PacketView::PubRel(_) => 0x62,
        PacketView::SubAck(_) => 0x90,
        PacketView::Subscribe(_) => 0x82,
        PacketView::UnsubAck(_) => 0xB0,
        PacketView::Unsubscribe(_) => 0xA2,
    }
}

/// Encodes the body (variable header and payload) of a packet.
pub open spec fn spec_encode_body(p: PacketView, version: ProtocolVersion) -> Result<Seq<u8>, EncodeError> {
    match p {
        PacketView::Auth(v) => spec_encode_auth(v),
        PacketView::ConnAck(v) => spec_encode_connack(v, version),
        PacketView::Disconnect(v) => spec_encode_disconnect(v, version),
        PacketView::PingReq => Ok(Seq::empty()),
        PacketView::PingResp => Ok(Seq::empty()),
        PacketView::PubAck(v) => spec_encode_puback(v, version),
        PacketView::PubComp(v) => spec_encode_pubcomp(v, version),
        PacketView::Publish(v) => spec_encode_publish(v, version),
        PacketView::PubRec(v) => spec_encode_pubrec(v, version),
        PacketView::PubRel(v) => spec_encode_pubrel(v, version),
        PacketView::SubAck(v) => spec_encode_suback(v, version),
        PacketView::UnsubAck(v) => spec_encode_unsuback(v, version),
        PacketView::Subscribe(v) => spec_encode_subscribe(v, version),
        PacketView::Unsubscribe(v) => spec_encode_unsubscribe(v, version),
    }
}

/// The length of the encoding of the properties of a packet.
pub open spec fn properties_len(p: PacketView) -> nat {
    match p {
        PacketView::Auth(v) => spec_encode_property_list(auth_properties(v)).len(),
        PacketView::ConnAck(v) => spec_encode_property_list(connack_properties(v.other_properties)).len(),
        PacketView::Disconnect(v) => spec_encode_property_list(disconnect_properties(v)).len(),
        PacketView::PubAck(v) => spec_encode_property_list(puback_properties(v)).len(),
        PacketView::PubComp(v) => spec_encode_property_list(pubcomp_properties(v)).len(),
        PacketView::Publish(v) => spec_encode_property_list(publish_properties(v.other_properties)).len(),
        PacketView::PubRec(v) => spec_encode_property_list(pubrec_properties(v)).len(),
        PacketView::PubRel(v) => spec_encode_property_list(pubrel_properties(v)).len(),
        PacketView::SubAck(v) => spec_encode_property_list(suback_properties(v)).len(),
        PacketView::UnsubAck(v) => spec_encode_property_list(unsuback_properties(v)).len(),
        PacketView::Subscribe(v) => spec_encode_property_list(subscribe_properties(v.other_properties)).len(),
        PacketView::Unsubscribe(v) => spec_encode_property_list(user_properties_as_props(v.user_properties)).len(),
        _ => 0,
    }
}

/// Encodes a whole packet: the first byte, the remaining length, and the body.
pub open spec fn spec_encode_packet(p: PacketView, version: ProtocolVersion) -> Result<Seq<u8>, EncodeError> {
    match spec_encode_body(p, version) {
        Err(e) => Err(e),
        Ok(body) => if body.len() > VARINT_MAX {
            Err(EncodeError::RemainingLengthTooHigh(body.len() as usize))
        } else {
            Ok(seq![spec_first_byte(p)] + spec_encode_varint(body.len()) + body)
        },
    }
}

/// Whether the encoding of a packet fits the memory of this machine.
pub open spec fn packet_fits(p: PacketView, version: ProtocolVersion) -> bool {
    &&& properties_len(p) <= usize::MAX
    &&& spec_encode_body(p, version) matches Ok(body) ==> body.len() + 5 <= usize::MAX
}

/// Whether a packet can be encoded for `version`: an AUTH packet cannot be encoded for v3.
pub open spec fn packet_encodable_for(p: PacketView, version: ProtocolVersion) -> bool {
    p is Auth ==> version == ProtocolVersion::V5
}

/// A borrowed packet.
#[derive(Clone, Copy)]
pub enum PacketRef<'a> {
    Auth(&'a Auth),
    ConnAck(&'a ConnAck),
    Disconnect(&'a Disconnect),
    PingReq(&'a PingReq),
    PingResp(&'a PingResp),
    PubAck(&'a PubAck),
    PubComp(&'a PubComp),
    Publish(&'a Publish),
    PubRec(&'a PubRec),
    PubRel(&'a PubRel),
    UnsubAck(&'a UnsubAck),
    SubAck(&'a SubAck),
    Subscribe(&'a Subscribe),
    Unsubscribe(&'a Unsubscribe),
}

impl<'a> View for PacketRef<'a> {
    type V = PacketView;

    open spec fn view(&self) -> PacketView {
        match self {
            PacketRef::Auth(p) => PacketView::Auth(p@),
            PacketRef::ConnAck(p) => PacketView::ConnAck(p@),
            PacketRef::Disconnect(p) => PacketView::Disconnect(p@),
            PacketRef::PingReq(_) => PacketView::PingReq,
            PacketRef::PingResp(_) => PacketView::PingResp,
            PacketRef::PubAck(p) => PacketView::PubAck(p@),
            PacketRef::PubComp(p) => PacketView::PubComp(p@),
            PacketRef::Publish(p) => PacketView::Publish(p@),
            PacketRef::PubRec(p) => PacketView::PubRec(p@),
            PacketRef::PubRel(p) => PacketView::PubRel(p@),
            PacketRef::UnsubAck(p) => PacketView::UnsubAck(p@),
            PacketRef::SubAck(p) => PacketView::SubAck(p@),
            PacketRef::Subscribe(p) => PacketView::Subscribe(p@),
            PacketRef::Unsubscribe(p) => PacketView::Unsubscribe(p@),
        }
    }
}

impl Packet {
    /// Decodes the body of a packet whose first byte is `first_byte`. The body must be taken
    /// whole.
    ///
    /// Ref: 2 MQTT Control Packet format
    pub fn decode(first_byte: u8, body: &mut Shared, version: ProtocolVersion) -> (r: Result<
        Packet,
        DecodeError,
    >)
        ensures
            match (r, spec_decode_packet(first_byte, old(body)@, version)) {
                (Ok(p), Ok(v)) => p@ == v,
                (Err(e), Err(se)) => e@ == se,
                _ => false,
            },
            r is Ok ==> final(body)@.len() == 0,
    {
        let packet_type = first_byte & 0xF0;
        if packet_type == 0xF0 || packet_type == 0x20 || packet_type == 0xE0 || packet_type == 0xC0
            || packet_type == 0xD0 || packet_type == 0x40 || packet_type == 0x70 {
            Packet::decode_control(first_byte, body, version)
        } else {
            Packet::decode_pubsub(first_byte, body, version)
        }
    }

    /// Decodes the body of an acknowledgement or control packet: AUTH, CONNACK, DISCONNECT,
    /// PINGREQ, PINGRESP, PUBACK or PUBCOMP.
    #[verifier::rlimit(40)]
    fn decode_control(first_byte: u8, body: &mut Shared, version: ProtocolVersion) -> (r: Result<
        Packet,
        DecodeError,
    >)
        requires
            (first_byte & 0xF0) == 0xF0 || (first_byte & 0xF0) == 0x20 || (first_byte & 0xF0) == 0xE0
                || (first_byte & 0xF0) == 0xC0 || (first_byte & 0xF0) == 0xD0 || (first_byte & 0xF0)
                == 0x40 || (first_byte & 0xF0) == 0x70,
        ensures
            match (r, spec_decode_packet(first_byte, old(body)@, version)) {
                (Ok(p), Ok(v)) => p@ == v,
                (Err(e), Err(se)) => e@ == se,
                _ => false,
            },
            r is Ok ==> final(body)@.len() == 0,
    {
        let packet_type = first_byte & 0xF0;
        let flags = first_byte & 0x0F;
        let packet = if packet_type == 0xF0 && flags == 0 {
            Packet::Auth(Auth::decode(flags, body, version)?)
        } else if packet_type == 0x20 && flags == 0 {
            Packet::ConnAck(ConnAck::decode(flags, body, version)?)
        } else if packet_type == 0xE0 && flags == 0 {
            Packet::Disconnect(Disconnect::decode(flags, body, version)?)
        } else if packet_type == 0xC0 && flags == 0 {
            Packet::PingReq(PingReq::decode(flags, body, version)?)
        } else if packet_type == 0xD0 && flags == 0 {
            Packet::PingResp(PingResp::decode(flags, body, version)?)
        } else if packet_type == 0x40 && flags == 0 {
            Packet::PubAck(PubAck::decode(flags, body, version)?)
        } else if packet_type == 0x70 && flags == 0 {
            Packet::PubComp(PubComp::decode(flags, body, version)?)
        } else {
            return Err(
                DecodeError::UnrecognizedPacket {
                    packet_type,
                    flags,
                    remaining_length: body.len(),
                },
            );
        };
        if body.len() != 0 {
            return Err(DecodeError::TrailingGarbage);
        }
        Ok(packet)
    }

    /// Decodes the body of a packet about publications and subscriptions: PUBLISH, SUBACK,
    /// SUBSCRIBE, UNSUBSCRIBE, PUBREC, PUBREL or UNSUBACK. Any other packet type is unrecognized.
    #[verifier::rlimit(60)]
    fn decode_pubsub(first_byte: u8, body: &mut Shared, version: ProtocolVersion) -> (r: Result<
        Packet,
        DecodeError,
    >)
        requires
            !((first_byte & 0xF0) == 0xF0 || (first_byte & 0xF0) == 0x20 || (first_byte & 0xF0)
                == 0xE0 || (first_byte & 0xF0) == 0xC0 || (first_byte & 0xF0) == 0xD0 || (first_byte
                & 0xF0) == 0x40 || (first_byte & 0xF0) == 0x70),
        ensures
            match (r, spec_decode_packet(first_byte, old(body)@, version)) {
                (Ok(p), Ok(v)) => p@ == v,
                (Err(e), Err(se)) => e@ == se,
                _ => false,
            },
            r is Ok ==> final(body)@.len() == 0,
    {
        let packet_type = first_byte & 0xF0;
        let flags = first_byte & 0x0F;
        let packet = if packet_type == 0x30 {
            Packet::Publish(Publish::decode(flags, body, version)?)
        } else if packet_type == 0x90 && flags == 0 {
            Packet::SubAck(SubAck::decode(flags, body, version)?)
        } else if packet_type == 0x80 && flags == 2 {
            Packet::Subscribe(Subscribe::decode(flags, body, version)?)
        } else if packet_type == 0xA0 && flags == 2 {
            Packet::Unsubscribe(Unsubscribe::decode(flags, body, version)?)
        } else if packet_type == 0x50 && flags == 0 {
            Packet::PubRec(PubRec::decode(flags, body, version)?)
        } else if packet_type == 0x60 && flags == 2 {
            Packet::PubRel(PubRel::decode(flags, body, version)?)
        } else if packet_type == 0xB0 && flags == 0 {
            Packet::UnsubAck(UnsubAck::decode(flags, body, version)?)
        } else {
            return Err(
                DecodeError::UnrecognizedPacket {
                    packet_type,
                    flags,
                    remaining_length: body.len(),
                },
            );
        };
        if body.len() != 0 {
            return Err(DecodeError::TrailingGarbage);
        }
        Ok(packet)
    }

    /// Decodes a whole packet, fixed header included, that fills `src` exactly.
    pub fn decode_full(src: &mut Shared, version: ProtocolVersion) -> (r: Result<Packet, DecodeError>)
        ensures
            match (r, spec_decode_full(old(src)@, version)) {
                (Ok(p), Ok(v)) => p@ == v,
                (Err(e), Err(se)) => e@ == se,
                _ => false,
            },
            r is Ok ==> final(src)@.len() == 0,
    {
        let (first_byte, remaining_length, n) = match decode_fixed_header(src.as_slice()) {
            Ok(Some(h)) => h,
            Ok(None) => {
                return Err(DecodeError::IncompletePacket);
            },
            Err(e) => {
                return Err(e);
            },
        };
        src.drain(n);
        if src.len() < remaining_length {
            return Err(DecodeError::IncompletePacket);
        }
        if src.len() > remaining_length {
            return Err(DecodeError::TrailingGarbage);
        }
        Packet::decode(first_byte, src, version)
    }

    /// Borrows the packet.
    pub fn borrow(&self) -> (r: PacketRef<'_>)
        ensures
            r@ == self@,
    {
        match self {
            Packet::Auth(p) => PacketRef::Auth(p),
            Packet::ConnAck(p) => PacketRef::ConnAck(p),
            Packet::Disconnect(p) => PacketRef::Disconnect(p),
            Packet::PingReq(p) => PacketRef::PingReq(p),
            Packet::PingResp(p) => PacketRef::PingResp(p),
            Packet::PubAck(p) => PacketRef::PubAck(p),
            Packet::PubComp(p) => PacketRef::PubComp(p),
            Packet::Publish(p) => PacketRef::Publish(p),
            Packet::PubRec(p) => PacketRef::PubRec(p),
            Packet::PubRel(p) => PacketRef::PubRel(p),
            Packet::UnsubAck(p) => PacketRef::UnsubAck(p),
            Packet::SubAck(p) => PacketRef::SubAck(p),
            Packet::Subscribe(p) => PacketRef::Subscribe(p),
            Packet::Unsubscribe(p) => PacketRef::Unsubscribe(p),
        }
    }

    /// Encodes the whole packet into `dst`: its first byte, remaining length and body. Fails
    /// with `InsufficientBuffer`, appending nothing, if `dst` cannot take all of it. Decoding
    /// what it appended gives back what `version` carries of the packet, when the values it holds
    /// are ones decoding gives back.
    pub fn encode<B: BytesAccumulator>(&self, dst: &mut B, version: ProtocolVersion) -> (r: Result<
        (),
        EncodeError,
    >)
        requires
            old(dst).wf(),
            packet_fits(self@, version),
            packet_encodable_for(self@, version),
        ensures
            final(dst).wf(),
            match spec_encode_packet(self@, version) {
                Ok(bytes) => if bytes.len() <= old(dst).spare() {
                    r is Ok && final(dst).contents() == old(dst).contents() + bytes
                } else {
                    r == Err::<(), EncodeError>(EncodeError::InsufficientBuffer) && final(dst).contents()
                        == old(dst).contents()
                },
                Err(e) => r == Err::<(), EncodeError>(e) && final(dst).contents() == old(
                    dst,
                ).contents(),
            },
            r is Ok && packet_decodable(self@) ==> spec_decode_full(
                spec_encode_packet(self@, version)->Ok_0,
                version,
            ) == Ok::<PacketView, DecodeErrorView>(carried_packet(self@, version)),
    {
        packet_is_wf(self);
        let r = self.borrow().encode(dst, version);
        proof {
            if r is Ok && packet_decodable(self@) {
                lemma_packet_roundtrip(self@, version);
            }
        }
        r
    }
}

impl<'a> PacketRef<'a> {
    /// The body of the packet, encoded.
    fn encode_body(self, version: ProtocolVersion) -> (r: Result<Shared, EncodeError>)
        requires
            packet_fits(self@, version),
            packet_encodable_for(self@, version),
        ensures
            match spec_encode_body(self@, version) {
                Ok(body) => r matches Ok(s) && s@ == body,
                Err(e) => r == Err::<Shared, EncodeError>(e),
            },
    {
        let mut body = SingleAccumulator::new();
        proof {
            assert(body.contents() + Seq::<u8>::empty() =~= body.contents());
        }
        let r = match self {
            PacketRef::Auth(p) => p.encode(&mut body, version),
            PacketRef::ConnAck(p) => p.encode(&mut body, version),
            PacketRef::Disconnect(p) => p.encode(&mut body, version),
            PacketRef::PingReq(p) => p.encode(&mut body, version),
            PacketRef::PingResp(p) => p.encode(&mut body, version),
            PacketRef::PubAck(p) => p.encode(&mut body, version),
            PacketRef::PubComp(p) => p.encode(&mut body, version),
            PacketRef::Publish(p) => p.encode(&mut body, version),
            PacketRef::PubRec(p) => p.encode(&mut body, version),
            PacketRef::PubRel(p) => p.encode(&mut body, version),
            PacketRef::UnsubAck(p) => p.encode(&mut body, version),
            PacketRef::SubAck(p) => p.encode(&mut body, version),
            PacketRef::Subscribe(p) => p.encode(&mut body, version),
            PacketRef::Unsubscribe(p) => p.encode(&mut body, version),
        };
        match r {
            Ok(()) => {
                proof {
                    assert(Seq::<u8>::empty() + body.contents() =~= body.contents());
                }
                Ok(body.freeze())
            },
            Err(e) => Err(e),
        }
    }

    /// The first byte of the packet: its type and its flags.
    fn first_byte(self) -> (r: u8)
        ensures
            r == spec_first_byte(self@),
    {
        match self {
            PacketRef::Auth(_) => Auth::PACKET_TYPE,
            PacketRef::ConnAck(_) => ConnAck::PACKET_TYPE,
            PacketRef::Disconnect(_) => Disconnect::PACKET_TYPE,
            PacketRef::PingReq(_) => PingReq::PACKET_TYPE,
            PacketRef::PingResp(_) => PingResp::PACKET_TYPE,
            PacketRef::PubAck(_) => PubAck::PACKET_TYPE,
            PacketRef::PubComp(_) => PubComp::PACKET_TYPE,
            PacketRef::Publish(p) => {
                let mut flags: u8 = match p.packet_identifier_dup_qos.into_parts() {
                    (QoS::AtMostOnce, _, _) => 0,
                    (QoS::AtLeastOnce, dup, _) => if dup {
                        10
                    } else {
                        2
                    },
                    (QoS::ExactlyOnce, dup, _) => if dup {
                        12
                    } else {
                        4
                    },
                };
                if p.retain {
                    flags = flags + 1;
                }
                Publish::PACKET_TYPE + flags
            },
            PacketRef::PubRec(_) => PubRec::PACKET_TYPE,
            PacketRef::PubRel(_) => PubRel::PACKET_TYPE + 0x02,
            PacketRef::UnsubAck(_) => UnsubAck::PACKET_TYPE,
            PacketRef::SubAck(_) => SubAck::PACKET_TYPE,
            PacketRef::Subscribe(_) => Subscribe::PACKET_TYPE + 0x02,
            PacketRef::Unsubscribe(_) => Unsubscribe::PACKET_TYPE + 0x02,
        }
    }

    /// Encodes the whole packet into `dst`: its first byte, remaining length and body. Fails
    /// with `InsufficientBuffer`, appending nothing, if `dst` cannot take all of it.
    pub fn encode<B: BytesAccumulator>(self, dst: &mut B, version: ProtocolVersion) -> (r: Result<
        (),
        EncodeError,
    >)
        requires
            old(dst).wf(),
            packet_fits(self@, version),
            packet_encodable_for(self@, version),
        ensures
            final(dst).wf(),
            match spec_encode_packet(self@, version) {
                Ok(bytes) => if bytes.len() <= old(dst).spare() {
                    r is Ok && final(dst).contents() == old(dst).contents() + bytes
                } else {
                    r == Err::<(), EncodeError>(EncodeError::InsufficientBuffer) && final(dst).contents()
                        == old(dst).contents()
                },
                Err(e) => r == Err::<(), EncodeError>(e) && final(dst).contents() == old(
                    dst,
                ).contents(),
            },
    {
        let body = self.encode_body(version)?;
        encode_inner(self.first_byte(), body, dst)
    }
}

/// Appends a packet to `dst`: its first byte, the length of its body as a remaining length, and
/// the body. Fails with `InsufficientBuffer`, appending nothing, if `dst` cannot take all of it.
pub fn encode_inner<B: BytesAccumulator>(first_byte: u8, body: Shared, dst: &mut B) -> (r: Result<
    (),
    EncodeError,
>)
    requires
        old(dst).wf(),
        body@.len() + 5 <= usize::MAX,
    ensures
        final(dst).wf(),
        body@.len() > VARINT_MAX ==> r == Err::<(), EncodeError>(
            EncodeError::RemainingLengthTooHigh(body@.len() as usize),
        ) && final(dst).contents() == old(dst).contents(),
        body@.len() <= VARINT_MAX ==> {
            let bytes = seq![first_byte] + spec_encode_varint(body@.len()) + body@;
            if bytes.len() <= old(dst).spare() {
                r is Ok && final(dst).contents() == old(dst).contents() + bytes
            } else {
                r == Err::<(), EncodeError>(EncodeError::InsufficientBuffer) && final(dst).contents()
                    == old(dst).contents()
            }
        },
{
    let len = body.len();
    if len > VARINT_MAX as usize {
        return Err(EncodeError::RemainingLengthTooHigh(len));
    }
    proof {
        crate::mqtt_proto::lemma_encode_varint(len as nat);
    }
    let header_len: usize = if len < 128 {
        2
    } else if len < 16384 {
        3
    } else if len < 2097152 {
        4
    } else {
        5
    };
    if dst.spare_len() < header_len + len {
        return Err(EncodeError::InsufficientBuffer);
    }
    let _ = try_put_u8(dst, first_byte);
    let _ = encode_remaining_length(len, dst);
    proof {
        dst.lemma_room();
    }
    dst.put_shared(body);
    dst.put_done();
    proof {
        assert(old(dst).contents().push(first_byte) + spec_encode_varint(len as nat) + body@ =~= old(
            dst,
        ).contents() + (seq![first_byte] + spec_encode_varint(len as nat) + body@));
    }
    Ok(())
}

} // verus!
