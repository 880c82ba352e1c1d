//! Ref: 3.3 PUBLISH – Publish message
use vstd::prelude::*;

use crate::buffer_pool::accumulators::try_put_u16_be;
use crate::buffer_pool::{self, u16_be_bytes, BytesAccumulator, Owned, Shared};
use crate::mqtt_proto::byte_str::ByteStr;
use crate::mqtt_proto::codes::QoS;
use crate::mqtt_proto::connack::{or_default, prop_if};
use crate::mqtt_proto::packet_fields::{
    clone_opt_str, clone_user_properties, find_bool, find_bytes, find_int, no_user_properties,
    opt_str_prop, opt_str_to_shared, push_str_property, take_bool_property, take_correlation_data,
    take_int_property, take_nonzero_u16_property, take_response_topic, take_str_property, user_properties_to_shared,
};
use crate::mqtt_proto::properties::{
    check_properties, decode_properties, encode_properties, props_view, push_user_properties,
    spec_decode_properties, spec_encode_properties, spec_encode_property_list,
    spec_subscription_identifiers, spec_user_properties, subscription_identifiers_of,
    user_properties_as_props, user_properties_of, user_properties_view, Property, PropertyView,
};
use crate::mqtt_proto::property::{opt_view, CorrelationData, NonZeroU16};
use crate::mqtt_proto::topic::{spec_decode_topic, Topic};
use crate::mqtt_proto::{
    spec_get_packet_identifier, try_get_packet_identifier, DecodeError, DecodeErrorView, EncodeError,
    PacketIdentifierDupQoS, ProtocolVersion,
};

verus! {

broadcast use crate::mqtt_proto::property::group_nonzero;

/// The properties of a PUBLISH besides its topic, QoS, retain flag and payload.
#[derive(Debug, PartialEq, Eq)]
pub struct PublishOtherProperties {
    pub payload_is_utf8: bool,
    pub message_expiry_interval: Option<u32>,
    pub topic_alias: Option<NonZeroU16>,
    pub response_topic: Option<Topic>,
    pub correlation_data: Option<CorrelationData>,
    pub user_properties: Vec<(ByteStr, ByteStr)>,
    pub subscription_identifiers: Vec<u32>,
    pub content_type: Option<ByteStr>,
}

/// The properties of a PUBLISH with their strings and data taken as their bytes.
pub struct PublishOtherPropertiesView {
    pub payload_is_utf8: bool,
    pub message_expiry_interval: Option<u32>,
    pub topic_alias: Option<u16>,
    pub response_topic: Option<Seq<u8>>,
    pub correlation_data: Option<Seq<u8>>,
    pub user_properties: Seq<(Seq<u8>, Seq<u8>)>,
    pub subscription_identifiers: Seq<u32>,
    pub content_type: Option<Seq<u8>>,
}

impl View for PublishOtherProperties {
    type V = PublishOtherPropertiesView;

    open spec fn view(&self) -> PublishOtherPropertiesView {
        PublishOtherPropertiesView {
            payload_is_utf8: self.payload_is_utf8,
            message_expiry_interval: self.message_expiry_interval,
            topic_alias: opt_view(self.topic_alias),
            response_topic: opt_view(self.response_topic),
            correlation_data: opt_view(self.correlation_data),
            user_properties: user_properties_view(self.user_properties@),
            subscription_identifiers: self.subscription_identifiers@,
            content_type: opt_view(self.content_type),
        }
    }
}

/// The properties of a PUBLISH that sent none.
pub open spec fn publish_default_properties() -> PublishOtherPropertiesView {
    PublishOtherPropertiesView {
        payload_is_utf8: false,
        message_expiry_interval: None,
        topic_alias: None,
        response_topic: None,
        correlation_data: None,
        user_properties: Seq::empty(),
        subscription_identifiers: Seq::empty(),
        content_type: None,
    }
}

impl Default for PublishOtherProperties {
    fn default() -> (r: Self)
        ensures
            r@ == publish_default_properties(),
    {
        let subscription_identifiers: Vec<u32> = Vec::new();
        PublishOtherProperties {
            payload_is_utf8: false,
            message_expiry_interval: None,
            topic_alias: None,
            response_topic: None,
            correlation_data: None,
            user_properties: no_user_properties(),
            subscription_identifiers,
            content_type: None,
        }
    }
}

/// 3.3 PUBLISH – Publish message
#[derive(Debug, PartialEq, Eq)]
pub struct Publish {
    pub topic_name: Topic,
    pub packet_identifier_dup_qos: PacketIdentifierDupQoS,
    pub retain: bool,
    pub payload: Shared,
    pub other_properties: PublishOtherProperties,
}

/// A PUBLISH with its topic name (length-prefixed), payload and properties taken as bytes.
pub struct PublishView {
    pub topic_name: Seq<u8>,
    pub packet_identifier_dup_qos: (QoS, bool, Option<u16>),
    pub retain: bool,
    pub payload: Seq<u8>,
    pub other_properties: PublishOtherPropertiesView,
}

impl View for Publish {
    type V = PublishView;

    open spec fn view(&self) -> PublishView {
        PublishView {
            topic_name: self.topic_name@,
            packet_identifier_dup_qos: self.packet_identifier_dup_qos@,
            retain: self.retain,
            payload: self.payload@,
            other_properties: self.other_properties@,
        }
    }
}

/// The identifiers of the properties a PUBLISH takes.
pub open spec fn publish_allowed() -> Seq<u8> {
    seq![0x01u8, 0x02u8, 0x23u8, 0x08u8, 0x09u8, 0x26u8, 0x0Bu8, 0x03u8]
}

/// The identifiers of the properties that may occur more than once in a PUBLISH.
pub open spec fn publish_repeat() -> Seq<u8> {
    seq![0x26u8, 0x0Bu8]
}

/// The DUP flag of the first byte of a PUBLISH.
pub open spec fn publish_dup(flags: u8) -> bool {
    flags & 0x08 != 0
}

/// The retain flag of the first byte of a PUBLISH.
pub open spec fn publish_retain(flags: u8) -> bool {
    flags & 0x01 != 0
}

/// The QoS bits of the first byte of a PUBLISH.
pub open spec fn publish_qos_bits(flags: u8) -> u8 {
    (flags & 0x06) >> 1
}

/// Decodes the QoS, DUP flag and, for QoS 1 and 2, the packet identifier that follow the topic
/// name: those and the number of bytes taken.
pub open spec fn spec_decode_publish_qos(flags: u8, r: Seq<u8>) -> Result<
    ((QoS, bool, Option<u16>), nat),
    DecodeErrorView,
> {
    let q = publish_qos_bits(flags);
    let dup = publish_dup(flags);
    if q == 0 {
        if dup {
            Err(DecodeErrorView::PublishDupAtMostOnce)
        } else {
            Ok(((QoS::AtMostOnce, false, None), 0))
        }
    } else if q == 1 || q == 2 {
        match spec_get_packet_identifier(r) {
            Err(e) => Err(e),
            Ok(pid) => Ok(
                (
                    (
                        if q == 1 {
                            QoS::AtLeastOnce
                        } else {
                            QoS::ExactlyOnce
                        },
                        dup,
                        Some(pid),
                    ),
                    2,
                ),
            ),
        }
    } else {
        Err(DecodeErrorView::UnrecognizedQoS(q))
    }
}

/// The properties of a PUBLISH from its decoded properties `ps`.
pub open spec fn publish_properties_from(ps: Seq<PropertyView>) -> PublishOtherPropertiesView {
    PublishOtherPropertiesView {
        payload_is_utf8: or_default(find_bool(ps, 0x01), false),
        message_expiry_interval: find_int(ps, 0x02),
        topic_alias: match find_int(ps, 0x23) {
            Some(v) => Some(v as u16),
            None => None,
        },
        response_topic: find_bytes(ps, 0x08),
        correlation_data: find_bytes(ps, 0x09),
        user_properties: spec_user_properties(ps),
        subscription_identifiers: spec_subscription_identifiers(ps),
        content_type: find_bytes(ps, 0x03),
    }
}

/// Decodes the body of a PUBLISH whose first byte had the low bits `flags`: the packet and the
/// number of bytes it took, which is all of them, since the payload fills the rest.
pub open spec fn spec_decode_publish(flags: u8, s: Seq<u8>, version: ProtocolVersion) -> Result<
    (PublishView, nat),
    DecodeErrorView,
> {
    match spec_decode_topic(s) {
        Err(e) => Err(e),
        Ok(None) => Err(DecodeErrorView::IncompletePacket),
        Ok(Some(t)) => match spec_decode_publish_qos(flags, s.skip(t.len() as int)) {
            Err(e) => Err(e),
            Ok((pdq, k)) => {
                let r = s.skip((t.len() + k) as int);
                if version == ProtocolVersion::V3 {
                    Ok(
                        (
                            PublishView {
                                topic_name: t,
                                packet_identifier_dup_qos: pdq,
                                retain: publish_retain(flags),
                                payload: r,
                                other_properties: publish_default_properties(),
                            },
                            s.len(),
                        ),
                    )
                } else {
                    match spec_decode_properties(r, publish_allowed(), publish_repeat()) {
                        Err(e) => Err(e),
                        Ok((ps, n)) => Ok(
                            (
                                PublishView {
                                    topic_name: t,
                                    packet_identifier_dup_qos: pdq,
                                    retain: publish_retain(flags),
                                    payload: r.skip(n as int),
                                    other_properties: publish_properties_from(ps),
                                },
                                s.len(),
                            ),
                        ),
                    }
                }
            },
        },
    }
}

/// The flags of a PUBLISH's first byte: retain is bit 0, the QoS is bits 1 and 2, and DUP is
/// bit 3. A decoded PUBLISH takes its retain flag, QoS and DUP flag from exactly those bits; a DUP
/// flag on QoS 0 and the QoS value 3 are refused.
///
/// Ref: 3.3.1 PUBLISH Fixed Header
pub proof fn lemma_publish_flag_bits(flags: u8, s: Seq<u8>, version: ProtocolVersion)
    ensures
        spec_decode_publish(flags, s, version) matches Ok((p, _)) ==> {
            &&& p.retain == (flags & 0x01 != 0)
            &&& p.packet_identifier_dup_qos.1 == (flags & 0x08 != 0)
            &&& p.packet_identifier_dup_qos.0 == (if flags & 0x06 == 0x00 {
                QoS::AtMostOnce
            } else if flags & 0x06 == 0x02 {
                QoS::AtLeastOnce
            } else {
                QoS::ExactlyOnce
            })
            &&& (p.packet_identifier_dup_qos.2 is Some <==> flags & 0x06 != 0x00)
        },
        flags & 0x06 == 0x06 ==> spec_decode_publish(flags, s, version) is Err,
        flags & 0x06 == 0x00 && flags & 0x08 != 0 ==> spec_decode_publish(flags, s, version) is Err,
{
    assert(((flags & 0x06) >> 1 == 0) == (flags & 0x06 == 0x00) && ((flags & 0x06) >> 1 == 1) == (
    flags & 0x06 == 0x02) && ((flags & 0x06) >> 1 == 3) == (flags & 0x06 == 0x06) && (flags & 0x06)
        >> 1 <= 3) by (bit_vector);
}

/// The properties a PUBLISH encodes, in order.
pub open spec fn publish_properties(v: PublishOtherPropertiesView) -> Seq<PropertyView> {
    prop_if(v.payload_is_utf8, PropertyView::PayloadIsUtf8(true)) + match v.message_expiry_interval {
        Some(i) => seq![PropertyView::MessageExpiryInterval(i)],
        None => Seq::empty(),
    } + match v.topic_alias {
        Some(a) => seq![PropertyView::TopicAlias(a)],
        None => Seq::empty(),
    } + match v.response_topic {
        Some(t) => seq![PropertyView::ResponseTopic(t)],
        None => Seq::empty(),
    } + match v.correlation_data {
        Some(c) => seq![PropertyView::CorrelationData(c)],
        None => Seq::empty(),
    } + user_properties_as_props(v.user_properties) + subscription_identifiers_as_props(
        v.subscription_identifiers,
    ) + opt_str_prop(v.content_type, 0x03)
}

/// Subscription identifiers as properties.
pub open spec fn subscription_identifiers_as_props(ids: Seq<u32>) -> Seq<PropertyView> {
    ids.map_values(|v: u32| PropertyView::SubscriptionIdentifier(v))
}

/// Encodes the body of a PUBLISH: the topic name, the packet identifier for QoS 1 and 2, in v5
/// the properties, and the payload.
pub open spec fn spec_encode_publish(v: PublishView, version: ProtocolVersion) -> Result<
    Seq<u8>,
    EncodeError,
> {
    let head = v.topic_name + match v.packet_identifier_dup_qos.2 {
        Some(pid) => u16_be_bytes(pid),
        None => Seq::empty(),
    };
    if version == ProtocolVersion::V3 {
        Ok(head + v.payload)
    } else {
        match spec_encode_properties(publish_properties(v.other_properties)) {
            Err(e) => Err(e),
            Ok(props) => Ok(head + props + v.payload),
        }
    }
}

impl Publish {
    pub const PACKET_TYPE: u8 = 0x30;

    /// Decodes the body of a PUBLISH from `src`; `flags` are the low bits of its first byte.
    pub fn decode(flags: u8, src: &mut Shared, version: ProtocolVersion) -> (r: Result<
        Publish,
        DecodeError,
    >)
        ensures
            match (r, spec_decode_publish(flags, old(src)@, version)) {
                (Ok(p), Ok((v, n))) => p@ == v && final(src)@ == old(src)@.skip(n as int),
                (Err(e), Err(se)) => e@ == se,
                _ => false,
            },
    {
        let ghost s = src@;
        let dup = (flags & 0x08) != 0;
        let retain = (flags & 0x01) != 0;
        let topic_name = match Topic::decode(src) {
            Ok(Some(t)) => t,
            Ok(None) => {
                return Err(DecodeError::IncompletePacket);
            },
            Err(e) => {
                return Err(e);
            },
        };
        let ghost after_topic = src@;
        let q = (flags & 0x06) >> 1;
        let packet_identifier_dup_qos = if q == 0 {
            if dup {
                return Err(DecodeError::PublishDupAtMostOnce);
            }
            PacketIdentifierDupQoS::AtMostOnce
        } else if q == 1 {
            let pid = try_get_packet_identifier(src)?;
            PacketIdentifierDupQoS::AtLeastOnce(pid, dup)
        } else if q == 2 {
            let pid = try_get_packet_identifier(src)?;
            PacketIdentifierDupQoS::ExactlyOnce(pid, dup)
        } else {
            return Err(DecodeError::UnrecognizedQoS(q));
        };
        let ghost k = after_topic.len() - src@.len();
        proof {
            assert(src@ =~= s.skip(topic_name@.len() + k));
            assert(spec_decode_publish_qos(flags, s.skip(topic_name@.len() as int)) == Ok::<
                ((QoS, bool, Option<u16>), nat),
                DecodeErrorView,
            >((packet_identifier_dup_qos@, k as nat)));
        }
        if version.is_v3() {
            let len = src.len();
            let ghost before = src@;
            let payload = src.split_to(len);
            proof {
                assert(payload@ =~= before);
                assert(src@ =~= s.skip(s.len() as int));
            }
            return Ok(
                Publish {
                    topic_name,
                    packet_identifier_dup_qos,
                    retain,
                    payload,
                    other_properties: PublishOtherProperties::default(),
                },
            );
        }
        let allowed: [u8; 8] = [0x01, 0x02, 0x23, 0x08, 0x09, 0x26, 0x0B, 0x03];
        proof {
            assert(allowed@ =~= publish_allowed());
        }
        let ghost before_props = src@;
        let repeatable: [u8; 2] = [0x26, 0x0B];
        proof {
            assert(repeatable@ =~= publish_repeat());
        }
        let ps = decode_properties(src, allowed.as_slice(), repeatable.as_slice())?;
        let len = src.len();
        let ghost before = src@;
        let payload = src.split_to(len);
        proof {
            assert(payload@ =~= before);
            assert(src@ =~= s.skip(s.len() as int));
        }
        let other_properties = PublishOtherProperties {
            payload_is_utf8: match take_bool_property(&ps, 0x01) {
                Some(b) => b,
                None => false,
            },
            message_expiry_interval: take_int_property(&ps, 0x02),
            topic_alias: take_nonzero_u16_property(&ps, 0x23),
            response_topic: take_response_topic(&ps),
            correlation_data: take_correlation_data(&ps),
            user_properties: user_properties_of(&ps),
            subscription_identifiers: subscription_identifiers_of(&ps),
            content_type: take_str_property(&ps, 0x03),
        };
        Ok(Publish { topic_name, packet_identifier_dup_qos, retain, payload, other_properties })
    }

    /// Encodes the body of this PUBLISH into `dst`.
    pub fn encode<B: BytesAccumulator>(&self, dst: &mut B, version: ProtocolVersion) -> (r: Result<
        (),
        EncodeError,
    >)
        requires
            old(dst).wf(),
            spec_encode_property_list(publish_properties(self@.other_properties)).len() <= usize::MAX,
            spec_encode_publish(self@, version) matches Ok(bytes) ==> bytes.len() <= old(dst).spare(),
        ensures
            final(dst).wf(),
            match spec_encode_publish(self@, version) {
                Ok(bytes) => r is Ok && final(dst).contents() == old(dst).contents() + bytes
                    && final(dst).spare() >= old(dst).spare() - bytes.len(),
                Err(e) => r == Err::<(), EncodeError>(e) && final(dst).contents() == old(
                    dst,
                ).contents(),
            },
    {
        let mut ps: Vec<Property> = Vec::new();
        if version.is_v5() {
            ps = self.other_properties.to_properties();
            check_properties(&ps)?;
        }
        proof {
            dst.lemma_room();
        }
        let _ = self.topic_name.encode(dst);
        let ghost after_topic = dst.contents();
        match self.packet_identifier_dup_qos {
            PacketIdentifierDupQoS::AtMostOnce => {},
            PacketIdentifierDupQoS::AtLeastOnce(pid, _) | PacketIdentifierDupQoS::ExactlyOnce(pid, _) => {
                let _ = try_put_u16_be(dst, pid.get());
            },
        }
        let ghost after_pid = dst.contents();
        if version.is_v5() {
            let _ = encode_properties(&ps, dst);
        }
        let ghost after_props = dst.contents();
        proof {
            dst.lemma_room();
        }
        dst.put_shared(self.payload.clone());
        proof {
            let head = self@.topic_name + match self@.packet_identifier_dup_qos.2 {
                Some(pid) => u16_be_bytes(pid),
                None => Seq::empty(),
            };
            assert(after_pid =~= old(dst).contents() + head);
            if version == ProtocolVersion::V5 {
                let props = spec_encode_properties(props_view(ps@))->Ok_0;
                assert(dst.contents() =~= old(dst).contents() + (head + props + self@.payload));
            } else {
                assert(after_props == after_pid);
                assert(dst.contents() =~= old(dst).contents() + (head + self@.payload));
            }
        }
        Ok(())
    }

    /// Copies this PUBLISH into new buffers taken from `owned`.
    pub fn to_shared(&self, owned: &mut Owned) -> (r: Result<Publish, buffer_pool::Error>)
        requires
            old(owned)@.0.len() == 0,
        ensures
            r matches Ok(p) && p@ == self@,
            final(owned)@.0.len() == 0,
    {
        let payload = self.payload.copy_to_shared(owned)?;
        Ok(
            Publish {
                topic_name: self.topic_name.to_shared(owned)?,
                packet_identifier_dup_qos: self.packet_identifier_dup_qos,
                retain: self.retain,
                payload,
                other_properties: self.other_properties.to_shared(owned)?,
            },
        )
    }
}

impl PublishOtherProperties {
    /// The properties these encode to, in order.
    pub fn to_properties(&self) -> (r: Vec<Property>)
        ensures
            props_view(r@) == publish_properties(self@),
    {
        let mut ps: Vec<Property> = Vec::new();
        if self.payload_is_utf8 {
            ps.push(Property::PayloadIsUtf8(true));
        }
        let ghost p1 = props_view(ps@);
        if let Some(i) = self.message_expiry_interval {
            ps.push(Property::MessageExpiryInterval(i));
        }
        let ghost p2 = props_view(ps@);
        if let Some(a) = self.topic_alias {
            ps.push(Property::TopicAlias(a));
        }
        let ghost p3 = props_view(ps@);
        if let Some(t) = &self.response_topic {
            ps.push(Property::ResponseTopic(t.clone()));
        }
        let ghost p4 = props_view(ps@);
        if let Some(c) = &self.correlation_data {
            ps.push(Property::CorrelationData(c.clone()));
        }
        let ghost p5 = props_view(ps@);
        push_user_properties(&mut ps, &self.user_properties);
        let ghost p6 = props_view(ps@);
        let mut i: usize = 0;
        while i < self.subscription_identifiers.len()
            invariant
                i <= self.subscription_identifiers@.len(),
                props_view(ps@) == p6 + subscription_identifiers_as_props(
                    self.subscription_identifiers@.take(i as int),
                ),
            decreases self.subscription_identifiers@.len() - i,
        {
            let ghost prev = props_view(ps@);
            ps.push(Property::SubscriptionIdentifier(self.subscription_identifiers[i]));
            proof {
                let ids = self.subscription_identifiers@;
                assert(ids.take(i + 1) =~= ids.take(i as int).push(ids[i as int]));
                assert(props_view(ps@) =~= prev.push(PropertyView::SubscriptionIdentifier(ids[i as int])));
                assert(subscription_identifiers_as_props(ids.take(i + 1)) =~= subscription_identifiers_as_props(
                    ids.take(i as int),
                ).push(PropertyView::SubscriptionIdentifier(ids[i as int])));
            }
            i = i + 1;
        }
        let ghost p7 = props_view(ps@);
        push_str_property(&mut ps, &self.content_type, 0x03);
        proof {
            let v = self@;
            assert(self.subscription_identifiers@.take(i as int) =~= self.subscription_identifiers@);
            assert(p1 =~= prop_if(v.payload_is_utf8, PropertyView::PayloadIsUtf8(true)));
            assert(props_view(ps@) =~= publish_properties(v));
        }
        ps
    }

    /// Copies these properties into new buffers taken from `owned`.
    pub fn to_shared(&self, owned: &mut Owned) -> (r: Result<PublishOtherProperties, buffer_pool::Error>)
        requires
            old(owned)@.0.len() == 0,
        ensures
            r matches Ok(p) && p@ == self@,
            final(owned)@.0.len() == 0,
    {
        let response_topic = match &self.response_topic {
            Some(t) => Some(t.to_shared(owned)?),
            None => None,
        };
        let correlation_data = match &self.correlation_data {
            Some(c) => Some(c.to_shared(owned)?),
            None => None,
        };
        let user_properties = user_properties_to_shared(&self.user_properties, owned)?;
        let content_type = opt_str_to_shared(&self.content_type, owned)?;
        Ok(
            PublishOtherProperties {
                payload_is_utf8: self.payload_is_utf8,
                message_expiry_interval: self.message_expiry_interval,
                topic_alias: self.topic_alias,
                response_topic,
                correlation_data,
                user_properties,
                subscription_identifiers: self.subscription_identifiers.clone(),
                content_type,
            },
        )
    }
}

impl Clone for PublishOtherProperties {
    fn clone(&self) -> (r: Self)
        ensures
            r@ == self@,
    {
        let response_topic = match &self.response_topic {
            Some(t) => Some(t.clone()),
            None => None,
        };
        let correlation_data = match &self.correlation_data {
            Some(c) => Some(c.clone()),
            None => None,
        };
        PublishOtherProperties {
            payload_is_utf8: self.payload_is_utf8,
            message_expiry_interval: self.message_expiry_interval,
            topic_alias: self.topic_alias,
            response_topic,
            correlation_data,
            user_properties: clone_user_properties(&self.user_properties),
            subscription_identifiers: self.subscription_identifiers.clone(),
            content_type: clone_opt_str(&self.content_type),
        }
    }
}

impl Clone for Publish {
    fn clone(&self) -> (r: Self)
        ensures
            r@ == self@,
    {
        Publish {
            topic_name: self.topic_name.clone(),
            packet_identifier_dup_qos: self.packet_identifier_dup_qos,
            retain: self.retain,
            payload: self.payload.clone(),
            other_properties: self.other_properties.clone(),
        }
    }
}

} // verus!
