//! Decoding and encoding of the properties of MQTT 5 packets.
//!
//! Ref: 2.2.2 Properties
use vstd::prelude::*;

use crate::buffer_pool::accumulators::{try_put_u16_be, try_put_u32_be, try_put_u8};
use crate::buffer_pool::{self, be_u16, be_u32, u16_be_bytes, u32_be_bytes, BytesAccumulator, Shared};
use crate::mqtt_proto::binary_data::{is_length_prefixed, length_prefixed, spec_split_length_prefixed, BinaryData};
use crate::mqtt_proto::byte_str::{is_byte_str, spec_decode_byte_str, ByteStr};
use crate::mqtt_proto::codes::QoS;
use crate::mqtt_proto::property::{CorrelationData, KeepAlive, NonZeroU16, NonZeroU32, SessionExpiryInterval};
use crate::mqtt_proto::topic::{spec_check_topic, spec_decode_topic, Topic};
use crate::mqtt_proto::{
    decode_varint, encode_varint, parts_total, parts_written, put_outcome, spec_decode_varint,
    spec_encode_varint, try_get_u16_be, try_get_u32_be, try_get_u8, varint_attempt, DecodeError,
    DecodeErrorView, EncodeError, VARINT_MAX,
};

verus! {

broadcast use crate::mqtt_proto::property::group_nonzero;

/// A property of an MQTT 5 packet.
///
/// Ref: 2.2.2.2 Property
#[derive(Debug, PartialEq, Eq)]
pub enum Property {
    /// Ref: 3.2.2.3.7 Assigned Client Identifier
    AssignedClientIdentifier(ByteStr),
    /// Ref: 3.1.2.11.10 Authentication Data
    AuthenticationData(BinaryData),
    /// Ref: 3.1.2.11.9 Authentication Method
    AuthenticationMethod(ByteStr),
    /// Ref: 3.1.3.2.5 Content Type
    ContentType(ByteStr),
    /// Ref: 3.1.3.2.7 Correlation Data
    CorrelationData(CorrelationData),
    /// Ref: 3.1.2.11.4 Maximum Packet Size; never 0.
    MaximumPacketSize(NonZeroU32),
    /// Ref: 3.2.2.3.4 Maximum QoS
    MaximumQoS(QoS),
    /// Ref: 3.3.2.3.3 Message Expiry Interval
    MessageExpiryInterval(u32),
    /// Ref: 3.1.3.2.3 Payload Format Indicator
    PayloadIsUtf8(bool),
    /// Ref: 3.2.2.3.9 Reason String
    ReasonString(ByteStr),
    /// Ref: 3.1.2.11.3 Receive Maximum; never 0.
    ReceiveMaximum(NonZeroU16),
    /// Ref: 3.1.2.11.7 Request Problem Information
    RequestProblemInformation(bool),
    /// Ref: 3.1.2.11.6 Request Response Information
    RequestResponseInformation(bool),
    /// Ref: 3.2.2.3.15 Response Information
    ResponseInformation(ByteStr),
    /// Ref: 3.1.3.2.6 Response Topic
    ResponseTopic(Topic),
    /// Ref: 3.2.2.3.5 Retain Available
    RetainAvailable(bool),
    /// Ref: 3.2.2.3.14 Server Keep Alive
    ServerKeepAlive(KeepAlive),
    /// Ref: 3.2.2.3.16 Server Reference
    ServerReference(ByteStr),
    /// Ref: 3.2.2.3.2 Session Expiry Interval
    SessionExpiryInterval(SessionExpiryInterval),
    /// Ref: 3.2.2.3.13 Shared Subscription Available
    SharedSubscriptionAvailable(bool),
    /// Ref: 3.8.2.1.2 Subscription Identifier
    SubscriptionIdentifier(u32),
    /// Ref: 3.2.2.3.12 Subscription Identifiers Available
    SubscriptionIdentifiersAvailable(bool),
    /// Ref: 3.3.2.3.4 Topic Alias; never 0.
    TopicAlias(NonZeroU16),
    /// Ref: 3.1.2.11.5 Topic Alias Maximum
    TopicAliasMaximum(u16),
    /// Ref: 3.1.2.11.8 User Property
    UserProperty(ByteStr, ByteStr),
    /// Ref: 3.2.2.3.11 Wildcard Subscription Available
    WildcardSubscriptionAvailable(bool),
    /// Ref: 3.1.3.2.2 Will Delay Interval
    WillDelayInterval(u32),
}

/// A property with its strings, binary data and topic names taken as their bytes (with their
/// length prefix), and correlation data as its bytes (without).
pub enum PropertyView {
    AssignedClientIdentifier(Seq<u8>),
    AuthenticationData(Seq<u8>),
    AuthenticationMethod(Seq<u8>),
    ContentType(Seq<u8>),
    CorrelationData(Seq<u8>),
    MaximumPacketSize(u32),
    MaximumQoS(QoS),
    MessageExpiryInterval(u32),
    PayloadIsUtf8(bool),
    ReasonString(Seq<u8>),
    ReceiveMaximum(u16),
    RequestProblemInformation(bool),
    RequestResponseInformation(bool),
    ResponseInformation(Seq<u8>),
    ResponseTopic(Seq<u8>),
    RetainAvailable(bool),
    ServerKeepAlive(KeepAlive),
    ServerReference(Seq<u8>),
    SessionExpiryInterval(SessionExpiryInterval),
    SharedSubscriptionAvailable(bool),
    SubscriptionIdentifier(u32),
    SubscriptionIdentifiersAvailable(bool),
    TopicAlias(u16),
    TopicAliasMaximum(u16),
    UserProperty(Seq<u8>, Seq<u8>),
    WildcardSubscriptionAvailable(bool),
    WillDelayInterval(u32),
}

impl View for Property {
    type V = PropertyView;

    open spec fn view(&self) -> PropertyView {
        match self {
            Property::AssignedClientIdentifier(s) => PropertyView::AssignedClientIdentifier(s@),
            Property::AuthenticationData(b) => PropertyView::AuthenticationData(b@),
            Property::AuthenticationMethod(s) => PropertyView::AuthenticationMethod(s@),
            Property::ContentType(s) => PropertyView::ContentType(s@),
            Property::CorrelationData(c) => PropertyView::CorrelationData(c@),
            Property::MaximumPacketSize(v) => PropertyView::MaximumPacketSize(v@),
            Property::MaximumQoS(q) => PropertyView::MaximumQoS(*q),
            Property::MessageExpiryInterval(v) => PropertyView::MessageExpiryInterval(*v),
            Property::PayloadIsUtf8(v) => PropertyView::PayloadIsUtf8(*v),
            Property::ReasonString(s) => PropertyView::ReasonString(s@),
            Property::ReceiveMaximum(v) => PropertyView::ReceiveMaximum(v@),
            Property::RequestProblemInformation(v) => PropertyView::RequestProblemInformation(*v),
            Property::RequestResponseInformation(v) => PropertyView::RequestResponseInformation(*v),
            Property::ResponseInformation(s) => PropertyView::ResponseInformation(s@),
            Property::ResponseTopic(t) => PropertyView::ResponseTopic(t@),
            Property::RetainAvailable(v) => PropertyView::RetainAvailable(*v),
            Property::ServerKeepAlive(k) => PropertyView::ServerKeepAlive(*k),
            Property::ServerReference(s) => PropertyView::ServerReference(s@),
            Property::SessionExpiryInterval(i) => PropertyView::SessionExpiryInterval(*i),
            Property::SharedSubscriptionAvailable(v) => PropertyView::SharedSubscriptionAvailable(*v),
            Property::SubscriptionIdentifier(v) => PropertyView::SubscriptionIdentifier(*v),
            Property::SubscriptionIdentifiersAvailable(v) => PropertyView::SubscriptionIdentifiersAvailable(*v),
            Property::TopicAlias(v) => PropertyView::TopicAlias(v@),
            Property::TopicAliasMaximum(v) => PropertyView::TopicAliasMaximum(*v),
            Property::UserProperty(n, v) => PropertyView::UserProperty(n@, v@),
            Property::WildcardSubscriptionAvailable(v) => PropertyView::WildcardSubscriptionAvailable(*v),
            Property::WillDelayInterval(v) => PropertyView::WillDelayInterval(*v),
        }
    }
}

// ---------------------------------------------------------------------------------------------
// Identifiers
// ---------------------------------------------------------------------------------------------

/// The identifier of a property.
pub open spec fn property_id(p: PropertyView) -> u8 {
    match p {
        PropertyView::PayloadIsUtf8(_) => 0x01,
        PropertyView::MessageExpiryInterval(_) => 0x02,
        PropertyView::ContentType(_) => 0x03,
        PropertyView::ResponseTopic(_) => 0x08,
        PropertyView::CorrelationData(_) => 0x09,
        PropertyView::SubscriptionIdentifier(_) => 0x0B,
        PropertyView::SessionExpiryInterval(_) => 0x11,
        PropertyView::AssignedClientIdentifier(_) => 0x12,
        PropertyView::ServerKeepAlive(_) => 0x13,
        PropertyView::AuthenticationMethod(_) => 0x15,
        PropertyView::AuthenticationData(_) => 0x16,
        PropertyView::RequestProblemInformation(_) => 0x17,
        PropertyView::WillDelayInterval(_) => 0x18,
        PropertyView::RequestResponseInformation(_) => 0x19,
        PropertyView::ResponseInformation(_) => 0x1A,
        PropertyView::ServerReference(_) => 0x1C,
        PropertyView::ReasonString(_) => 0x1F,
        PropertyView::ReceiveMaximum(_) => 0x21,
        PropertyView::TopicAliasMaximum(_) => 0x22,
        PropertyView::TopicAlias(_) => 0x23,
        PropertyView::MaximumQoS(_) => 0x24,
        PropertyView::RetainAvailable(_) => 0x25,
        PropertyView::UserProperty(_, _) => 0x26,
        PropertyView::MaximumPacketSize(_) => 0x27,
        PropertyView::WildcardSubscriptionAvailable(_) => 0x28,
        PropertyView::SubscriptionIdentifiersAvailable(_) => 0x29,
        PropertyView::SharedSubscriptionAvailable(_) => 0x2A,
    }
}

/// The name of the property with identifier `id`, as duplicate-property errors give it.
pub open spec fn property_name(id: u8) -> Seq<char> {
    if id == 0x01 {
        "PayloadIsUtf8"@
    } else if id == 0x02 {
        "MessageExpiryInterval"@
    } else if id == 0x03 {
        "ContentType"@
    } else if id == 0x08 {
        "ResponseTopic"@
    } else if id == 0x09 {
        "CorrelationData"@
    } else if id == 0x0B {
        "SubscriptionIdentifier"@
    } else if id == 0x11 {
        "SessionExpiryInterval"@
    } else if id == 0x12 {
        "AssignedClientIdentifier"@
    } else if id == 0x13 {
        "ServerKeepAlive"@
    } else if id == 0x15 {
        "AuthenticationMethod"@
    } else if id == 0x16 {
        "AuthenticationData"@
    } else if id == 0x17 {
        "RequestProblemInformation"@
    } else if id == 0x18 {
        "WillDelayInterval"@
    } else if id == 0x19 {
        "RequestResponseInformation"@
    } else if id == 0x1A {
        "ResponseInformation"@
    } else if id == 0x1C {
        "ServerReference"@
    } else if id == 0x1F {
        "ReasonString"@
    } else if id == 0x21 {
        "ReceiveMaximum"@
    } else if id == 0x22 {
        "TopicAliasMaximum"@
    } else if id == 0x23 {
        "TopicAlias"@
    } else if id == 0x24 {
        "MaximumQoS"@
    } else if id == 0x25 {
        "RetainAvailable"@
    } else if id == 0x27 {
        "MaximumPacketSize"@
    } else if id == 0x28 {
        "WildcardSubscriptionAvailable"@
    } else if id == 0x29 {
        "SubscriptionIdentifiersAvailable"@
    } else {
        "SharedSubscriptionAvailable"@
    }
}

/// The name of the property with identifier `id`.
fn property_name_of(id: u8) -> (r: &'static str)
    ensures
        r@ == property_name(id),
{
    if id == 0x01 {
        "PayloadIsUtf8"
    } else if id == 0x02 {
        "MessageExpiryInterval"
    } else if id == 0x03 {
        "ContentType"
    } else if id == 0x08 {
        "ResponseTopic"
    } else if id == 0x09 {
        "CorrelationData"
    } else if id == 0x0B {
        "SubscriptionIdentifier"
    } else if id == 0x11 {
        "SessionExpiryInterval"
    } else if id == 0x12 {
        "AssignedClientIdentifier"
    } else if id == 0x13 {
        "ServerKeepAlive"
    } else if id == 0x15 {
        "AuthenticationMethod"
    } else if id == 0x16 {
        "AuthenticationData"
    } else if id == 0x17 {
        "RequestProblemInformation"
    } else if id == 0x18 {
        "WillDelayInterval"
    } else if id == 0x19 {
        "RequestResponseInformation"
    } else if id == 0x1A {
        "ResponseInformation"
    } else if id == 0x1C {
        "ServerReference"
    } else if id == 0x1F {
        "ReasonString"
    } else if id == 0x21 {
        "ReceiveMaximum"
    } else if id == 0x22 {
        "TopicAliasMaximum"
    } else if id == 0x23 {
        "TopicAlias"
    } else if id == 0x24 {
        "MaximumQoS"
    } else if id == 0x25 {
        "RetainAvailable"
    } else if id == 0x27 {
        "MaximumPacketSize"
    } else if id == 0x28 {
        "WildcardSubscriptionAvailable"
    } else if id == 0x29 {
        "SubscriptionIdentifiersAvailable"
    } else {
        "SharedSubscriptionAvailable"
    }
}

/// Properties whose value is a boolean byte.
pub open spec fn is_bool_id(id: u8) -> bool {
    id == 0x01 || id == 0x17 || id == 0x19 || id == 0x25 || id == 0x28 || id == 0x29 || id == 0x2A
}

/// Properties whose value is a four-byte integer.
pub open spec fn is_u32_id(id: u8) -> bool {
    id == 0x02 || id == 0x11 || id == 0x18 || id == 0x27
}

/// Properties whose value is a two-byte integer.
pub open spec fn is_u16_id(id: u8) -> bool {
    id == 0x13 || id == 0x21 || id == 0x22 || id == 0x23
}

/// Properties whose value is a UTF-8 string.
pub open spec fn is_str_id(id: u8) -> bool {
    id == 0x03 || id == 0x12 || id == 0x15 || id == 0x1A || id == 0x1C || id == 0x1F
}

// ---------------------------------------------------------------------------------------------
// Decoding one property
// ---------------------------------------------------------------------------------------------

/// The boolean property with identifier `id`.
pub open spec fn bool_property(id: u8, v: bool) -> PropertyView {
    if id == 0x01 {
        PropertyView::PayloadIsUtf8(v)
    } else if id == 0x17 {
        PropertyView::RequestProblemInformation(v)
    } else if id == 0x19 {
        PropertyView::RequestResponseInformation(v)
    } else if id == 0x25 {
        PropertyView::RetainAvailable(v)
    } else if id == 0x28 {
        PropertyView::WildcardSubscriptionAvailable(v)
    } else if id == 0x29 {
        PropertyView::SubscriptionIdentifiersAvailable(v)
    } else {
        PropertyView::SharedSubscriptionAvailable(v)
    }
}

/// The error for a boolean property with identifier `id` whose byte `b` is neither 0 nor 1.
pub open spec fn bool_property_error(id: u8, b: u8) -> DecodeErrorView {
    if id == 0x01 {
        DecodeErrorView::UnrecognizedPayloadFormatIndicator(b)
    } else if id == 0x17 {
        DecodeErrorView::UnrecognizedRequestProblemInformation(b)
    } else if id == 0x19 {
        DecodeErrorView::UnrecognizedRequestResponseInformation(b)
    } else if id == 0x25 {
        DecodeErrorView::UnrecognizedRetainAvailable(b)
    } else if id == 0x28 {
        DecodeErrorView::UnrecognizedWildcardSubscriptionAvailable(b)
    } else if id == 0x29 {
        DecodeErrorView::UnrecognizedSubscriptionIdentifiersAvailable(b)
    } else {
        DecodeErrorView::UnrecognizedSharedSubscriptionAvailable(b)
    }
}

/// The four-byte-integer property with identifier `id`, or the error for value `v`.
pub open spec fn u32_property(id: u8, v: u32) -> Result<PropertyView, DecodeErrorView> {
    if id == 0x02 {
        Ok(PropertyView::MessageExpiryInterval(v))
    } else if id == 0x11 {
        Ok(PropertyView::SessionExpiryInterval(SessionExpiryInterval::spec_from_u32(v)))
    } else if id == 0x18 {
        Ok(PropertyView::WillDelayInterval(v))
    } else if v == 0 {
        Err(DecodeErrorView::InvalidMaximumPacketSize(v))
    } else {
        Ok(PropertyView::MaximumPacketSize(v))
    }
}

/// The two-byte-integer property with identifier `id`, or the error for value `v`.
pub open spec fn u16_property(id: u8, v: u16) -> Result<PropertyView, DecodeErrorView> {
    if id == 0x13 {
        Ok(PropertyView::ServerKeepAlive(KeepAlive::spec_from_u16(v)))
    } else if id == 0x21 {
        if v == 0 {
            Err(DecodeErrorView::InvalidReceiveMaximum(v))
        } else {
            Ok(PropertyView::ReceiveMaximum(v))
        }
    } else if id == 0x22 {
        Ok(PropertyView::TopicAliasMaximum(v))
    } else if v == 0 {
        Err(DecodeErrorView::InvalidTopicAlias(v))
    } else {
        Ok(PropertyView::TopicAlias(v))
    }
}

/// The string property with identifier `id`.
pub open spec fn str_property(id: u8, raw: Seq<u8>) -> PropertyView {
    if id == 0x03 {
        PropertyView::ContentType(raw)
    } else if id == 0x12 {
        PropertyView::AssignedClientIdentifier(raw)
    } else if id == 0x15 {
        PropertyView::AuthenticationMethod(raw)
    } else if id == 0x1A {
        PropertyView::ResponseInformation(raw)
    } else if id == 0x1C {
        PropertyView::ServerReference(raw)
    } else {
        PropertyView::ReasonString(raw)
    }
}

/// The UTF-8 string at the start of `s`; one cut short is an incomplete packet.
pub open spec fn spec_take_byte_str(s: Seq<u8>) -> Result<Seq<u8>, DecodeErrorView> {
    match spec_decode_byte_str(s) {
        Ok(Some(raw)) => Ok(raw),
        Ok(None) => Err(DecodeErrorView::IncompletePacket),
        Err(e) => Err(e),
    }
}

/// The property at the start of `s`, and the number of bytes it takes.
#[verifier::opaque]
pub open spec fn spec_decode_property(s: Seq<u8>) -> Result<(PropertyView, nat), DecodeErrorView> {
    if s.len() == 0 {
        Err(DecodeErrorView::IncompletePacket)
    } else {
        let id = s[0];
        let r = s.skip(1);
        if is_bool_id(id) {
            if r.len() < 1 {
                Err(DecodeErrorView::IncompletePacket)
            } else if r[0] == 0 || r[0] == 1 {
                Ok((bool_property(id, r[0] == 1), 2))
            } else {
                Err(bool_property_error(id, r[0]))
            }
        } else if is_u32_id(id) {
            if r.len() < 4 {
                Err(DecodeErrorView::IncompletePacket)
            } else {
                match u32_property(id, be_u32(r)) {
                    Ok(p) => Ok((p, 5)),
                    Err(e) => Err(e),
                }
            }
        } else if is_u16_id(id) {
            if r.len() < 2 {
                Err(DecodeErrorView::IncompletePacket)
            } else {
                match u16_property(id, be_u16(r)) {
                    Ok(p) => Ok((p, 3)),
                    Err(e) => Err(e),
                }
            }
        } else if is_str_id(id) {
            match spec_take_byte_str(r) {
                Ok(raw) => Ok((str_property(id, raw), 1 + raw.len())),
                Err(e) => Err(e),
            }
        } else if id == 0x08 {
            match spec_decode_topic(r) {
                Ok(Some(raw)) => Ok((PropertyView::ResponseTopic(raw), 1 + raw.len())),
                Ok(None) => Err(DecodeErrorView::IncompletePacket),
                Err(e) => Err(e),
            }
        } else if id == 0x09 || id == 0x16 {
            match spec_split_length_prefixed(r) {
                Some(raw) => Ok(
                    (
                        if id == 0x09 {
                            PropertyView::CorrelationData(raw.skip(2))
                        } else {
                            PropertyView::AuthenticationData(raw)
                        },
                        1 + raw.len(),
                    ),
                ),
                None => Err(DecodeErrorView::IncompletePacket),
            }
        } else if id == 0x0B {
            match spec_decode_varint(r) {
                Ok(Some((v, n))) => Ok((PropertyView::SubscriptionIdentifier(v), 1 + n)),
                Ok(None) => Err(DecodeErrorView::IncompletePacket),
                Err(e) => Err(e),
            }
        } else if id == 0x24 {
            if r.len() < 1 {
                Err(DecodeErrorView::IncompletePacket)
            } else if r[0] == 0 {
                Ok((PropertyView::MaximumQoS(QoS::AtMostOnce), 2))
            } else if r[0] == 1 {
                Ok((PropertyView::MaximumQoS(QoS::AtLeastOnce), 2))
            } else {
                Err(DecodeErrorView::UnrecognizedMaximumQoS(r[0]))
            }
        } else if id == 0x26 {
            match spec_take_byte_str(r) {
                Ok(name) => match spec_take_byte_str(r.skip(name.len() as int)) {
                    Ok(value) => Ok(
                        (PropertyView::UserProperty(name, value), 1 + name.len() + value.len()),
                    ),
                    Err(e) => Err(e),
                },
                Err(e) => Err(e),
            }
        } else {
            Err(DecodeErrorView::UnrecognizedPropertyIdentifier(id))
        }
    }
}

/// Reads a UTF-8 string; one cut short is an incomplete packet.
fn take_byte_str(src: &mut Shared) -> (r: Result<ByteStr, DecodeError>)
    ensures
        match (r, spec_take_byte_str(old(src)@)) {
            (Ok(b), Ok(raw)) => b@ == raw && final(src)@ == old(src)@.skip(raw.len() as int),
            (Err(e), Err(se)) => e@ == se,
            _ => false,
        },
{
    match ByteStr::decode(src) {
        Ok(Some(b)) => Ok(b),
        Ok(None) => Err(DecodeError::IncompletePacket),
        Err(e) => Err(e),
    }
}

impl Property {
    /// Decodes one property from the start of `src`.
    ///
    /// Ref: 2.2.2.2 Property
    pub fn decode(src: &mut Shared) -> (r: Result<Property, DecodeError>)
        ensures
            match (r, spec_decode_property(old(src)@)) {
                (Ok(p), Ok((sp, n))) => p@ == sp && final(src)@ == old(src)@.skip(n as int),
                (Err(e), Err(se)) => e@ == se,
                _ => false,
            },
    {
        reveal(spec_decode_property);
        let ghost s = src@;
        // All defined identifiers are one byte long, though the format allows longer ones.
        let id = try_get_u8(src)?;
        proof {
            assert(src@ =~= s.skip(1));
        }
        if id == 0x01 || id == 0x17 || id == 0x19 || id == 0x25 || id == 0x28 || id == 0x29 || id
            == 0x2A {
            let b = try_get_u8(src)?;
            proof {
                assert(src@ =~= s.skip(2));
            }
            if b > 1 {
                return Err(
                    if id == 0x01 {
                        DecodeError::UnrecognizedPayloadFormatIndicator(b)
                    } else if id == 0x17 {
                        DecodeError::UnrecognizedRequestProblemInformation(b)
                    } else if id == 0x19 {
                        DecodeError::UnrecognizedRequestResponseInformation(b)
                    } else if id == 0x25 {
                        DecodeError::UnrecognizedRetainAvailable(b)
                    } else if id == 0x28 {
                        DecodeError::UnrecognizedWildcardSubscriptionAvailable(b)
                    } else if id == 0x29 {
                        DecodeError::UnrecognizedSubscriptionIdentifiersAvailable(b)
                    } else {
                        DecodeError::UnrecognizedSharedSubscriptionAvailable(b)
                    },
                );
            }
            let v = b == 1;
            return Ok(
                if id == 0x01 {
                    Property::PayloadIsUtf8(v)
                } else if id == 0x17 {
                    Property::RequestProblemInformation(v)
                } else if id == 0x19 {
                    Property::RequestResponseInformation(v)
                } else if id == 0x25 {
                    Property::RetainAvailable(v)
                } else if id == 0x28 {
                    Property::WildcardSubscriptionAvailable(v)
                } else if id == 0x29 {
                    Property::SubscriptionIdentifiersAvailable(v)
                } else {
                    Property::SharedSubscriptionAvailable(v)
                },
            );
        }
        if id == 0x02 || id == 0x11 || id == 0x18 || id == 0x27 {
            let v = try_get_u32_be(src)?;
            proof {
                assert(src@ =~= s.skip(5));
            }
            return if id == 0x02 {
                Ok(Property::MessageExpiryInterval(v))
            } else if id == 0x11 {
                Ok(Property::SessionExpiryInterval(SessionExpiryInterval::from_u32(v)))
            } else if id == 0x18 {
                Ok(Property::WillDelayInterval(v))
            } else {
                match NonZeroU32::new(v) {
                    Some(n) => Ok(Property::MaximumPacketSize(n)),
                    None => Err(DecodeError::InvalidMaximumPacketSize(v)),
                }
            };
        }
        if id == 0x13 || id == 0x21 || id == 0x22 || id == 0x23 {
            let v = try_get_u16_be(src)?;
            proof {
                assert(src@ =~= s.skip(3));
            }
            return if id == 0x13 {
                Ok(Property::ServerKeepAlive(KeepAlive::from_u16(v)))
            } else if id == 0x21 {
                match NonZeroU16::new(v) {
                    Some(n) => Ok(Property::ReceiveMaximum(n)),
                    None => Err(DecodeError::InvalidReceiveMaximum(v)),
                }
            } else if id == 0x22 {
                Ok(Property::TopicAliasMaximum(v))
            } else {
                match NonZeroU16::new(v) {
                    Some(n) => Ok(Property::TopicAlias(n)),
                    None => Err(DecodeError::InvalidTopicAlias(v)),
                }
            };
        }
        if id == 0x03 || id == 0x12 || id == 0x15 || id == 0x1A || id == 0x1C || id == 0x1F {
            let b = take_byte_str(src)?;
            proof {
                assert(src@ =~= s.skip((1 + b@.len()) as int));
            }
            return Ok(
                if id == 0x03 {
                    Property::ContentType(b)
                } else if id == 0x12 {
                    Property::AssignedClientIdentifier(b)
                } else if id == 0x15 {
                    Property::AuthenticationMethod(b)
                } else if id == 0x1A {
                    Property::ResponseInformation(b)
                } else if id == 0x1C {
                    Property::ServerReference(b)
                } else {
                    Property::ReasonString(b)
                },
            );
        }
        if id == 0x08 {
            return match Topic::decode(src) {
                Ok(Some(t)) => {
                    proof {
                        assert(src@ =~= s.skip((1 + t@.len()) as int));
                    }
                    Ok(Property::ResponseTopic(t))
                },
                Ok(None) => Err(DecodeError::IncompletePacket),
                Err(e) => Err(e),
            };
        }
        if id == 0x09 {
            return match CorrelationData::decode(src) {
                Some(c) => {
                    proof {
                        assert(src@ =~= s.skip((1 + c@.len() + 2) as int));
                    }
                    Ok(Property::CorrelationData(c))
                },
                None => Err(DecodeError::IncompletePacket),
            };
        }
        if id == 0x16 {
            return match BinaryData::decode(src) {
                Some(b) => {
                    proof {
                        assert(src@ =~= s.skip((1 + b@.len()) as int));
                    }
                    Ok(Property::AuthenticationData(b))
                },
                None => Err(DecodeError::IncompletePacket),
            };
        }
        if id == 0x0B {
            let (v, n) = match decode_varint(src.as_slice()) {
                Ok(Some(vn)) => vn,
                Ok(None) => {
                    return Err(DecodeError::IncompletePacket);
                },
                Err(e) => {
                    return Err(e);
                },
            };
            src.drain(n);
            proof {
                assert(src@ =~= s.skip((1 + n) as int));
            }
            return Ok(Property::SubscriptionIdentifier(v));
        }
        if id == 0x24 {
            let b = try_get_u8(src)?;
            proof {
                assert(src@ =~= s.skip(2));
            }
            return if b == 0 {
                Ok(Property::MaximumQoS(QoS::AtMostOnce))
            } else if b == 1 {
                Ok(Property::MaximumQoS(QoS::AtLeastOnce))
            } else {
                Err(DecodeError::UnrecognizedMaximumQoS(b))
            };
        }
        if id == 0x26 {
            let name = take_byte_str(src)?;
            proof {
                assert(src@ =~= s.skip(1).skip(name@.len() as int));
            }
            let value = take_byte_str(src)?;
            proof {
                assert(src@ =~= s.skip((1 + name@.len() + value@.len()) as int));
            }
            return Ok(Property::UserProperty(name, value));
        }
        Err(DecodeError::UnrecognizedPropertyIdentifier(id))
    }
}


impl Clone for Property {
    fn clone(&self) -> (r: Self)
        ensures
            r@ == self@,
    {
        match self {
            Property::AssignedClientIdentifier(s) => Property::AssignedClientIdentifier(s.clone()),
            Property::AuthenticationData(b) => Property::AuthenticationData(b.clone()),
            Property::AuthenticationMethod(s) => Property::AuthenticationMethod(s.clone()),
            Property::ContentType(s) => Property::ContentType(s.clone()),
            Property::CorrelationData(c) => Property::CorrelationData(c.clone()),
            Property::MaximumPacketSize(v) => Property::MaximumPacketSize(*v),
            Property::MaximumQoS(q) => Property::MaximumQoS(*q),
            Property::MessageExpiryInterval(v) => Property::MessageExpiryInterval(*v),
            Property::PayloadIsUtf8(v) => Property::PayloadIsUtf8(*v),
            Property::ReasonString(s) => Property::ReasonString(s.clone()),
            Property::ReceiveMaximum(v) => Property::ReceiveMaximum(*v),
            Property::RequestProblemInformation(v) => Property::RequestProblemInformation(*v),
            Property::RequestResponseInformation(v) => Property::RequestResponseInformation(*v),
            Property::ResponseInformation(s) => Property::ResponseInformation(s.clone()),
            Property::ResponseTopic(t) => Property::ResponseTopic(t.clone()),
            Property::RetainAvailable(v) => Property::RetainAvailable(*v),
            Property::ServerKeepAlive(k) => Property::ServerKeepAlive(*k),
            Property::ServerReference(s) => Property::ServerReference(s.clone()),
            Property::SessionExpiryInterval(i) => Property::SessionExpiryInterval(*i),
            Property::SharedSubscriptionAvailable(v) => Property::SharedSubscriptionAvailable(*v),
            Property::SubscriptionIdentifier(v) => Property::SubscriptionIdentifier(*v),
            Property::SubscriptionIdentifiersAvailable(v) => Property::SubscriptionIdentifiersAvailable(*v),
            Property::TopicAlias(v) => Property::TopicAlias(*v),
            Property::TopicAliasMaximum(v) => Property::TopicAliasMaximum(*v),
            Property::UserProperty(n, v) => Property::UserProperty(n.clone(), v.clone()),
            Property::WildcardSubscriptionAvailable(v) => Property::WildcardSubscriptionAvailable(*v),
            Property::WillDelayInterval(v) => Property::WillDelayInterval(*v),
        }
    }
}

// ---------------------------------------------------------------------------------------------
// Encoding one property
// ---------------------------------------------------------------------------------------------

/// A one-byte identifier followed by a one-byte value.
pub open spec fn two_bytes(id: u8, v: u8) -> Seq<u8> {
    seq![id, v]
}

/// The encoding of a property. Properties that hold the value the protocol assumes when the
/// property is absent are left out, and so encode to nothing.
pub open spec fn spec_encode_property(p: PropertyView) -> Seq<u8> {
    match p {
        PropertyView::AssignedClientIdentifier(raw) => seq![0x12u8] + raw,
        PropertyView::AuthenticationData(raw) => seq![0x16u8] + raw,
        PropertyView::AuthenticationMethod(raw) => seq![0x15u8] + raw,
        PropertyView::ContentType(raw) => seq![0x03u8] + raw,
        PropertyView::CorrelationData(c) => seq![0x09u8] + length_prefixed(c),
        PropertyView::MaximumPacketSize(v) => if v < u32::MAX {
            seq![0x27u8] + u32_be_bytes(v)
        } else {
            Seq::empty()
        },
        PropertyView::MaximumQoS(q) => if q is ExactlyOnce {
            Seq::empty()
        } else {
            two_bytes(0x24, q.spec_code())
        },
        PropertyView::MessageExpiryInterval(v) => seq![0x02u8] + u32_be_bytes(v),
        PropertyView::PayloadIsUtf8(b) => if b {
            two_bytes(0x01, 0x01)
        } else {
            Seq::empty()
        },
        PropertyView::ReasonString(raw) => seq![0x1Fu8] + raw,
        PropertyView::ReceiveMaximum(v) => if v < u16::MAX {
            seq![0x21u8] + u16_be_bytes(v)
        } else {
            Seq::empty()
        },
        PropertyView::RequestProblemInformation(b) => if !b {
            two_bytes(0x17, 0x00)
        } else {
            Seq::empty()
        },
        PropertyView::RequestResponseInformation(b) => if b {
            two_bytes(0x19, 0x01)
        } else {
            Seq::empty()
        },
        PropertyView::ResponseInformation(raw) => seq![0x1Au8] + raw,
        PropertyView::ResponseTopic(raw) => seq![0x08u8] + raw,
        PropertyView::RetainAvailable(b) => if !b {
            two_bytes(0x25, 0x00)
        } else {
            Seq::empty()
        },
        PropertyView::ServerKeepAlive(k) => seq![0x13u8] + u16_be_bytes(k.spec_to_u16()),
        PropertyView::ServerReference(raw) => seq![0x1Cu8] + raw,
        PropertyView::SessionExpiryInterval(i) => seq![0x11u8] + u32_be_bytes(i.spec_to_u32()),
        PropertyView::SharedSubscriptionAvailable(b) => if !b {
            two_bytes(0x2A, 0x00)
        } else {
            Seq::empty()
        },
        PropertyView::SubscriptionIdentifier(v) => seq![0x0Bu8] + spec_encode_varint(v as nat),
        PropertyView::SubscriptionIdentifiersAvailable(b) => if !b {
            two_bytes(0x29, 0x00)
        } else {
            Seq::empty()
        },
        PropertyView::TopicAlias(v) => seq![0x23u8] + u16_be_bytes(v),
        PropertyView::TopicAliasMaximum(v) => if v > 0 {
            seq![0x22u8] + u16_be_bytes(v)
        } else {
            Seq::empty()
        },
        PropertyView::UserProperty(n, v) => seq![0x26u8] + n + v,
        PropertyView::WildcardSubscriptionAvailable(b) => if !b {
            two_bytes(0x28, 0x00)
        } else {
            Seq::empty()
        },
        PropertyView::WillDelayInterval(v) => if v > 0 {
            seq![0x18u8] + u32_be_bytes(v)
        } else {
            Seq::empty()
        },
    }
}

/// Whether a property can be encoded: a subscription identifier must fit a variable byte integer.
pub open spec fn property_encodable(p: PropertyView) -> bool {
    p matches PropertyView::SubscriptionIdentifier(v) ==> v <= VARINT_MAX
}

/// The bytes that `Property::encode` writes for `p`: its encoding, or, for a subscription
/// identifier too large for a variable byte integer, the identifier and the four bytes written
/// before the encoder stops.
pub open spec fn property_attempt(p: &Property) -> Seq<u8> {
    match p {
        Property::SubscriptionIdentifier(v) => seq![0x0Bu8] + varint_attempt(*v as nat),
        _ => spec_encode_property(p@),
    }
}

/// The sizes of the leading parts of `property_attempt(p)` that `Property::encode` copies, each
/// all or nothing; strings and binary data after them are handed over without copying.
pub open spec fn property_copied_parts(p: &Property) -> Seq<nat> {
    match p {
        Property::AssignedClientIdentifier(_) | Property::AuthenticationData(_)
        | Property::AuthenticationMethod(_) | Property::ContentType(_) | Property::ReasonString(_)
        | Property::ResponseInformation(_) | Property::ResponseTopic(_)
        | Property::ServerReference(_) | Property::UserProperty(_, _) => seq![1nat],
        Property::CorrelationData(c) => seq![1nat] + c.copied_parts(),
        Property::SubscriptionIdentifier(_) => Seq::new(property_attempt(p).len(), |i: int| 1nat),
        _ => {
            let n = spec_encode_property(p@).len();
            if n == 0 {
                Seq::empty()
            } else {
                seq![1nat, (n - 1) as nat]
            }
        },
    }
}

/// What `Property::encode` returns once all of `property_attempt(p)` is written.
pub open spec fn property_done(p: &Property) -> Result<(), EncodeError> {
    match p {
        Property::SubscriptionIdentifier(v) => if *v > VARINT_MAX {
            Err(EncodeError::VarintTooHigh(*v))
        } else {
            Ok(())
        },
        _ => Ok(()),
    }
}

/// An encodable property is written as its encoding, and what is copied of it is never more
/// than what is written.
pub proof fn lemma_property_attempt(p: &Property)
    ensures
        property_encodable(p@) ==> property_attempt(p) == spec_encode_property(p@) && property_done(p)
            == Ok::<(), EncodeError>(()),
        parts_total(property_copied_parts(p)) <= property_attempt(p).len(),
{
    reveal_with_fuel(parts_total, 3);
    match p {
        Property::SubscriptionIdentifier(v) => {
            crate::mqtt_proto::lemma_single_byte_parts(property_copied_parts(p), 0);
            if *v <= VARINT_MAX {
                crate::mqtt_proto::lemma_encode_varint(*v as nat);
            }
        },
        Property::CorrelationData(c) => {
            crate::mqtt_proto::lemma_parts_cons(1, c.copied_parts(), 0);
        },
        _ => {},
    }
}

/// Appends `id` and then the string `s` to `dst`; only `id` is copied.
fn put_id_and_str<B: BytesAccumulator>(dst: &mut B, id: u8, s: &ByteStr) -> (r: Result<
    (),
    EncodeError,
>)
    requires
        old(dst).wf(),
        s@.len() + 1 <= old(dst).room(),
    ensures
        final(dst).wf(),
        put_outcome(
            old(dst).contents(),
            old(dst).spare(),
            final(dst).contents(),
            final(dst).spare(),
            seq![id] + s@,
            seq![1nat],
            Ok(()),
            r,
        ),
{
    proof {
        reveal_with_fuel(parts_total, 2);
        reveal_with_fuel(parts_written, 2);
    }
    if try_put_u8(dst, id).is_none() {
        proof {
            assert((seq![id] + s@).take(0) =~= Seq::<u8>::empty());
            assert(old(dst).contents() + Seq::<u8>::empty() =~= old(dst).contents());
        }
        return Err(EncodeError::InsufficientBuffer);
    }
    let _ = s.encode(dst);
    proof {
        assert(old(dst).contents().push(id) + s@ =~= old(dst).contents() + (seq![id] + s@));
    }
    Ok(())
}

/// Appends `id` and then the big-endian `v` to `dst`, copying each.
fn put_id_and_u16<B: BytesAccumulator>(dst: &mut B, id: u8, v: u16) -> (r: Result<(), EncodeError>)
    requires
        old(dst).wf(),
    ensures
        final(dst).wf(),
        put_outcome(
            old(dst).contents(),
            old(dst).spare(),
            final(dst).contents(),
            final(dst).spare(),
            seq![id] + u16_be_bytes(v),
            seq![1nat, 2nat],
            Ok(()),
            r,
        ),
{
    proof {
        reveal_with_fuel(parts_total, 3);
        reveal_with_fuel(parts_written, 3);
    }
    if try_put_u8(dst, id).is_none() {
        proof {
            assert((seq![id] + u16_be_bytes(v)).take(0) =~= Seq::<u8>::empty());
            assert(old(dst).contents() + Seq::<u8>::empty() =~= old(dst).contents());
        }
        return Err(EncodeError::InsufficientBuffer);
    }
    if try_put_u16_be(dst, v).is_none() {
        proof {
            assert((seq![id] + u16_be_bytes(v)).take(1) =~= seq![id]);
            assert(old(dst).contents() + seq![id] =~= old(dst).contents().push(id));
        }
        return Err(EncodeError::InsufficientBuffer);
    }
    proof {
        assert(old(dst).contents().push(id) + u16_be_bytes(v) =~= old(dst).contents() + (seq![id]
            + u16_be_bytes(v)));
    }
    Ok(())
}

/// Appends `id` and then the big-endian `v` to `dst`, copying each.
fn put_id_and_u32<B: BytesAccumulator>(dst: &mut B, id: u8, v: u32) -> (r: Result<(), EncodeError>)
    requires
        old(dst).wf(),
    ensures
        final(dst).wf(),
        put_outcome(
            old(dst).contents(),
            old(dst).spare(),
            final(dst).contents(),
            final(dst).spare(),
            seq![id] + u32_be_bytes(v),
            seq![1nat, 4nat],
            Ok(()),
            r,
        ),
{
    proof {
        reveal_with_fuel(parts_total, 3);
        reveal_with_fuel(parts_written, 3);
    }
    if try_put_u8(dst, id).is_none() {
        proof {
            assert((seq![id] + u32_be_bytes(v)).take(0) =~= Seq::<u8>::empty());
            assert(old(dst).contents() + Seq::<u8>::empty() =~= old(dst).contents());
        }
        return Err(EncodeError::InsufficientBuffer);
    }
    if try_put_u32_be(dst, v).is_none() {
        proof {
            assert((seq![id] + u32_be_bytes(v)).take(1) =~= seq![id]);
            assert(old(dst).contents() + seq![id] =~= old(dst).contents().push(id));
        }
        return Err(EncodeError::InsufficientBuffer);
    }
    proof {
        assert(old(dst).contents().push(id) + u32_be_bytes(v) =~= old(dst).contents() + (seq![id]
            + u32_be_bytes(v)));
    }
    Ok(())
}

/// Appends `id` and then `v` to `dst`, copying each.
fn put_id_and_u8<B: BytesAccumulator>(dst: &mut B, id: u8, v: u8) -> (r: Result<(), EncodeError>)
    requires
        old(dst).wf(),
    ensures
        final(dst).wf(),
        put_outcome(
            old(dst).contents(),
            old(dst).spare(),
            final(dst).contents(),
            final(dst).spare(),
            two_bytes(id, v),
            seq![1nat, 1nat],
            Ok(()),
            r,
        ),
{
    proof {
        reveal_with_fuel(parts_total, 3);
        reveal_with_fuel(parts_written, 3);
    }
    if try_put_u8(dst, id).is_none() {
        proof {
            assert(two_bytes(id, v).take(0) =~= Seq::<u8>::empty());
            assert(old(dst).contents() + Seq::<u8>::empty() =~= old(dst).contents());
        }
        return Err(EncodeError::InsufficientBuffer);
    }
    if try_put_u8(dst, v).is_none() {
        proof {
            assert(two_bytes(id, v).take(1) =~= seq![id]);
            assert(old(dst).contents() + seq![id] =~= old(dst).contents().push(id));
        }
        return Err(EncodeError::InsufficientBuffer);
    }
    proof {
        assert(old(dst).contents().push(id).push(v) =~= old(dst).contents() + two_bytes(id, v));
    }
    Ok(())
}

impl Property {
    /// The number of bytes of the encoding of this property.
    pub fn encoded_len(&self) -> (r: usize)
        requires
            property_encodable(self@),
        ensures
            r == spec_encode_property(self@).len(),
    {
        match self {
            Property::AssignedClientIdentifier(s) | Property::AuthenticationMethod(s)
            | Property::ContentType(s) | Property::ReasonString(s) | Property::ResponseInformation(s)
            | Property::ServerReference(s) => {
                proof {
                    use_type_invariant(s);
                }
                1 + s.as_raw().len()
            },
            Property::AuthenticationData(b) => {
                proof {
                    use_type_invariant(b);
                }
                1 + b.len() + 2
            },
            Property::ResponseTopic(t) => {
                proof {
                    use_type_invariant(t);
                }
                1 + t.as_bytes().len() + 2
            },
            Property::CorrelationData(c) => {
                let n = c.as_bytes().len();
                proof {
                    if let CorrelationData::Variable(b) = c {
                        use_type_invariant(b);
                    }
                }
                1 + n + 2
            },
            Property::MaximumPacketSize(v) => if v.get() < u32::MAX {
                5
            } else {
                0
            },
            Property::MaximumQoS(q) => match q {
                QoS::ExactlyOnce => 0,
                _ => 2,
            },
            Property::MessageExpiryInterval(_) | Property::SessionExpiryInterval(_) => 5,
            Property::PayloadIsUtf8(b) | Property::RequestResponseInformation(b) => if *b {
                2
            } else {
                0
            },
            Property::ReceiveMaximum(v) => if v.get() < u16::MAX {
                3
            } else {
                0
            },
            Property::RequestProblemInformation(b) | Property::RetainAvailable(b)
            | Property::SharedSubscriptionAvailable(b) | Property::SubscriptionIdentifiersAvailable(b)
            | Property::WildcardSubscriptionAvailable(b) => if *b {
                0
            } else {
                2
            },
            Property::ServerKeepAlive(_) | Property::TopicAlias(_) => 3,
            Property::SubscriptionIdentifier(v) => {
                proof {
                    crate::mqtt_proto::lemma_encode_varint(*v as nat);
                }
                if *v < 128 {
                    2
                } else if *v < 16384 {
                    3
                } else if *v < 2097152 {
                    4
                } else {
                    5
                }
            },
            Property::TopicAliasMaximum(v) => if *v > 0 {
                3
            } else {
                0
            },
            Property::UserProperty(n, v) => {
                proof {
                    use_type_invariant(n);
                    use_type_invariant(v);
                }
                1 + n.as_raw().len() + v.as_raw().len()
            },
            Property::WillDelayInterval(v) => if *v > 0 {
                5
            } else {
                0
            },
        }
    }

    /// Appends the encoding of this property to `dst`. Identifiers and fixed-size values are
    /// copied and fail with `InsufficientBuffer` where they do not fit; strings and binary data
    /// are handed over whatever is spare. The bytes written before a failure stay. A
    /// subscription identifier too large for a variable byte integer fails with `VarintTooHigh`
    /// once its first four bytes are written. A property decodes back from its encoding,
    /// whatever follows it, unless it holds a session expiry interval of 0xFFFFFFFF seconds,
    /// which is read back as one that never expires.
    #[verifier::spinoff_prover]
    #[verifier::rlimit(100)]
    pub fn encode<B: BytesAccumulator>(&self, dst: &mut B) -> (r: Result<(), EncodeError>)
        requires
            old(dst).wf(),
            property_attempt(self).len() <= old(dst).room(),
        ensures
            final(dst).wf(),
            put_outcome(
                old(dst).contents(),
                old(dst).spare(),
                final(dst).contents(),
                final(dst).spare(),
                property_attempt(self),
                property_copied_parts(self),
                property_done(self),
                r,
            ),
            property_values_valid(self@) && spec_encode_property(self@).len() > 0 ==> forall|rest: Seq<u8>|
                #[trigger] spec_decode_property(spec_encode_property(self@) + rest) == Ok::<
                    (PropertyView, nat),
                    DecodeErrorView,
                >((self@, spec_encode_property(self@).len())),
    {
        lemma_property_wf(self);
        proof {
            if property_values_valid(self@) && spec_encode_property(self@).len() > 0 {
                assert forall|rest: Seq<u8>| #[trigger] spec_decode_property(spec_encode_property(self@) + rest)
                    == Ok::<(PropertyView, nat), DecodeErrorView>((self@, spec_encode_property(self@).len())) by {
                    lemma_property_roundtrip(self@, rest);
                }
            }
            reveal_with_fuel(parts_total, 3);
            reveal_with_fuel(parts_written, 3);
            assert(old(dst).contents() + Seq::<u8>::empty() =~= old(dst).contents());
        }
        match self {
            Property::AssignedClientIdentifier(s) => put_id_and_str(dst, 0x12, s),
            Property::AuthenticationData(b) => {
                if try_put_u8(dst, 0x16).is_none() {
                    proof {
                        assert(property_attempt(self).take(0) =~= Seq::<u8>::empty());
                    }
                    return Err(EncodeError::InsufficientBuffer);
                }
                let _ = b.encode(dst);
                proof {
                    assert(old(dst).contents().push(0x16) + b@ =~= old(dst).contents()
                        + property_attempt(self));
                }
                Ok(())
            },
            Property::AuthenticationMethod(s) => put_id_and_str(dst, 0x15, s),
            Property::ContentType(s) => put_id_and_str(dst, 0x03, s),
            Property::CorrelationData(c) => {
                proof {
                    crate::mqtt_proto::lemma_parts_cons(1, c.copied_parts(), old(dst).spare());
                }
                if try_put_u8(dst, 0x09).is_none() {
                    proof {
                        assert(property_attempt(self).take(0) =~= Seq::<u8>::empty());
                    }
                    return Err(EncodeError::InsufficientBuffer);
                }
                let r = c.encode(dst);
                proof {
                    let bytes = property_attempt(self);
                    assert(bytes =~= seq![0x09u8] + length_prefixed(c@));
                    assert(old(dst).contents().push(0x09) + length_prefixed(c@) =~= old(dst).contents()
                        + bytes);
                    let k = parts_written(c.copied_parts(), (old(dst).spare() - 1) as nat);
                    if parts_total(c.copied_parts()) > old(dst).spare() - 1 {
                        assert(k <= length_prefixed(c@).len()) by {
                            reveal_with_fuel(parts_written, 3);
                        }
                        assert(old(dst).contents().push(0x09) + length_prefixed(c@).take(k as int)
                            =~= old(dst).contents() + bytes.take(1 + k as int));
                    }
                }
                r
            },
            Property::MaximumPacketSize(v) => {
                if v.get() < u32::MAX {
                    put_id_and_u32(dst, 0x27, v.get())
                } else {
                    Ok(())
                }
            },
            Property::MaximumQoS(q) => match q {
                QoS::ExactlyOnce => Ok(()),
                _ => put_id_and_u8(dst, 0x24, q.to_code()),
            },
            Property::MessageExpiryInterval(v) => put_id_and_u32(dst, 0x02, *v),
            Property::PayloadIsUtf8(b) => {
                if *b {
                    put_id_and_u8(dst, 0x01, 0x01)
                } else {
                    Ok(())
                }
            },
            Property::ReasonString(s) => put_id_and_str(dst, 0x1F, s),
            Property::ReceiveMaximum(v) => {
                if v.get() < u16::MAX {
                    put_id_and_u16(dst, 0x21, v.get())
                } else {
                    Ok(())
                }
            },
            Property::RequestProblemInformation(b) => {
                if !*b {
                    put_id_and_u8(dst, 0x17, 0x00)
                } else {
                    Ok(())
                }
            },
            Property::RequestResponseInformation(b) => {
                if *b {
                    put_id_and_u8(dst, 0x19, 0x01)
                } else {
                    Ok(())
                }
            },
            Property::ResponseInformation(s) => put_id_and_str(dst, 0x1A, s),
            Property::ResponseTopic(t) => {
                if try_put_u8(dst, 0x08).is_none() {
                    proof {
                        assert(property_attempt(self).take(0) =~= Seq::<u8>::empty());
                    }
                    return Err(EncodeError::InsufficientBuffer);
                }
                let _ = t.encode(dst);
                proof {
                    assert(old(dst).contents().push(0x08) + t@ =~= old(dst).contents()
                        + property_attempt(self));
                }
                Ok(())
            },
            Property::RetainAvailable(b) => {
                if !*b {
                    put_id_and_u8(dst, 0x25, 0x00)
                } else {
                    Ok(())
                }
            },
            Property::ServerKeepAlive(k) => put_id_and_u16(dst, 0x13, k.to_u16()),
            Property::ServerReference(s) => put_id_and_str(dst, 0x1C, s),
            Property::SessionExpiryInterval(i) => put_id_and_u32(dst, 0x11, i.to_u32()),
            Property::SharedSubscriptionAvailable(b) => {
                if !*b {
                    put_id_and_u8(dst, 0x2A, 0x00)
                } else {
                    Ok(())
                }
            },
            Property::SubscriptionIdentifier(v) => {
                let ghost bytes = property_attempt(self);
                let ghost va = varint_attempt(*v as nat);
                proof {
                    crate::mqtt_proto::lemma_single_byte_parts(property_copied_parts(self), old(dst).spare());
                }
                if try_put_u8(dst, 0x0B).is_none() {
                    proof {
                        assert(bytes.take(0) =~= Seq::<u8>::empty());
                    }
                    return Err(EncodeError::InsufficientBuffer);
                }
                let r = encode_varint(*v, dst);
                proof {
                    assert(old(dst).contents().push(0x0B) + va =~= old(dst).contents() + bytes);
                    if old(dst).spare() - 1 < va.len() {
                        assert(old(dst).contents().push(0x0B) + va.take(old(dst).spare() - 1)
                            =~= old(dst).contents() + bytes.take(old(dst).spare() as int));
                    }
                }
                r
            },
            Property::SubscriptionIdentifiersAvailable(b) => {
                if !*b {
                    put_id_and_u8(dst, 0x29, 0x00)
                } else {
                    Ok(())
                }
            },
            Property::TopicAlias(v) => put_id_and_u16(dst, 0x23, v.get()),
            Property::TopicAliasMaximum(v) => {
                if *v > 0 {
                    put_id_and_u16(dst, 0x22, *v)
                } else {
                    Ok(())
                }
            },
            Property::UserProperty(n, v) => {
                if try_put_u8(dst, 0x26).is_none() {
                    proof {
                        assert(property_attempt(self).take(0) =~= Seq::<u8>::empty());
                    }
                    return Err(EncodeError::InsufficientBuffer);
                }
                let _ = n.encode(dst);
                let _ = v.encode(dst);
                proof {
                    assert(old(dst).contents().push(0x26) + n@ + v@ =~= old(dst).contents()
                        + property_attempt(self));
                }
                Ok(())
            },
            Property::WildcardSubscriptionAvailable(b) => {
                if !*b {
                    put_id_and_u8(dst, 0x28, 0x00)
                } else {
                    Ok(())
                }
            },
            Property::WillDelayInterval(v) => {
                if *v > 0 {
                    put_id_and_u32(dst, 0x18, *v)
                } else {
                    Ok(())
                }
            },
        }
    }
}


// ---------------------------------------------------------------------------------------------
// Lists of properties
// ---------------------------------------------------------------------------------------------

/// The views of a sequence of properties.
pub open spec fn props_view(ps: Seq<Property>) -> Seq<PropertyView> {
    ps.map_values(|p: Property| p@)
}

/// Whether some property of `ps` has identifier `id`.
pub open spec fn has_property(ps: Seq<PropertyView>, id: u8) -> bool {
    exists|i: int| 0 <= i < ps.len() && property_id(#[trigger] ps[i]) == id
}

/// Adds the decoded property `p` to those decoded before it, `acc`: a property that the packet
/// does not take, or a second one of a kind that may occur only once, is an error.
pub open spec fn spec_add_property(
    acc: Seq<PropertyView>,
    p: PropertyView,
    allowed: Seq<u8>,
    repeatable: Seq<u8>,
) -> Result<
    Seq<PropertyView>,
    DecodeErrorView,
> {
    if !allowed.contains(property_id(p)) {
        Err(DecodeErrorView::UnexpectedProperty)
    } else if !repeatable.contains(property_id(p)) && has_property(acc, property_id(p)) {
        Err(DecodeErrorView::DuplicateProperty(property_name(property_id(p))))
    } else {
        Ok(acc.push(p))
    }
}

/// The identifiers of the properties that may occur more than once in most packets: user
/// properties.
pub open spec fn user_properties_repeat() -> Seq<u8> {
    seq![0x26u8]
}

/// Only user properties may repeat.
pub proof fn lemma_user_properties_repeat()
    ensures
        forall|id: u8| #[trigger] user_properties_repeat().contains(id) <==> id == 0x26,
{
    assert forall|id: u8| #[trigger] user_properties_repeat().contains(id) <==> id == 0x26 by {
        if id == 0x26 {
            assert(user_properties_repeat()[0] == id);
        }
    }
}

/// Decodes the properties that fill `s`, after those in `acc`.
pub open spec fn spec_decode_property_list(
    s: Seq<u8>,
    allowed: Seq<u8>,
    repeatable: Seq<u8>,
    acc: Seq<PropertyView>,
) -> Result<
    Seq<PropertyView>,
    DecodeErrorView,
>
    decreases s.len(),
{
    if s.len() == 0 {
        Ok(acc)
    } else {
        match spec_decode_property(s) {
            Err(e) => Err(e),
            Ok((p, n)) => if 1 <= n <= s.len() {
                match spec_add_property(acc, p, allowed, repeatable) {
                    Err(e) => Err(e),
                    Ok(acc2) => spec_decode_property_list(s.skip(n as int), allowed, repeatable, acc2),
                }
            } else {
                Err(DecodeErrorView::IncompletePacket)
            },
        }
    }
}

/// Decodes the property section at the start of `s`: the property length, then the properties.
/// Gives the properties and the number of bytes the section takes.
pub open spec fn spec_decode_properties(s: Seq<u8>, allowed: Seq<u8>, repeatable: Seq<u8>) -> Result<
    (Seq<PropertyView>, nat),
    DecodeErrorView,
> {
    match spec_decode_varint(s) {
        Err(e) => Err(e),
        Ok(None) => Err(DecodeErrorView::IncompletePacket),
        Ok(Some((len, n))) => if s.len() < n + len {
            Err(DecodeErrorView::IncompletePacket)
        } else {
            match spec_decode_property_list(s.subrange(n as int, n + len), allowed, repeatable, Seq::empty()) {
                Ok(ps) => Ok((ps, (n + len) as nat)),
                Err(e) => Err(e),
            }
        },
    }
}

/// A property's length is at least one and at most what it was decoded from.
pub proof fn lemma_decode_property_len(s: Seq<u8>)
    ensures
        spec_decode_property(s) matches Ok((p, n)) ==> 1 <= n <= s.len(),
{
    reveal(spec_decode_property);
    if s.len() > 0 {
        let r = s.skip(1);
        let id = s[0];
        if is_str_id(id) || id == 0x26 {
            if let Ok(Some(raw)) = spec_decode_byte_str(r) {
                assert(raw.len() <= r.len());
                if id == 0x26 {
                    let r2 = r.skip(raw.len() as int);
                    if let Ok(Some(raw2)) = spec_decode_byte_str(r2) {
                        assert(raw2.len() <= r2.len());
                    }
                }
            }
        }
        if id == 0x08 {
            if let Ok(Some(raw)) = spec_decode_topic(r) {
                assert(raw.len() <= r.len());
            }
        }
    }
}

/// Whether `id` is in `allowed`.
fn is_allowed(allowed: &[u8], id: u8) -> (r: bool)
    ensures
        r == allowed@.contains(id),
{
    let mut i: usize = 0;
    while i < allowed.len()
        invariant
            i <= allowed@.len(),
            forall|j: int| 0 <= j < i ==> allowed@[j] != id,
        decreases allowed@.len() - i,
    {
        if allowed[i] == id {
            return true;
        }
        i = i + 1;
    }
    false
}

impl Property {
    /// The identifier of this property.
    pub fn id(&self) -> (r: u8)
        ensures
            r == property_id(self@),
    {
        match self {
            Property::PayloadIsUtf8(_) => 0x01,
            Property::MessageExpiryInterval(_) => 0x02,
            Property::ContentType(_) => 0x03,
            Property::ResponseTopic(_) => 0x08,
            Property::CorrelationData(_) => 0x09,
            Property::SubscriptionIdentifier(_) => 0x0B,
            Property::SessionExpiryInterval(_) => 0x11,
            Property::AssignedClientIdentifier(_) => 0x12,
            Property::ServerKeepAlive(_) => 0x13,
            Property::AuthenticationMethod(_) => 0x15,
            Property::AuthenticationData(_) => 0x16,
            Property::RequestProblemInformation(_) => 0x17,
            Property::WillDelayInterval(_) => 0x18,
            Property::RequestResponseInformation(_) => 0x19,
            Property::ResponseInformation(_) => 0x1A,
            Property::ServerReference(_) => 0x1C,
            Property::ReasonString(_) => 0x1F,
            Property::ReceiveMaximum(_) => 0x21,
            Property::TopicAliasMaximum(_) => 0x22,
            Property::TopicAlias(_) => 0x23,
            Property::MaximumQoS(_) => 0x24,
            Property::RetainAvailable(_) => 0x25,
            Property::UserProperty(_, _) => 0x26,
            Property::MaximumPacketSize(_) => 0x27,
            Property::WildcardSubscriptionAvailable(_) => 0x28,
            Property::SubscriptionIdentifiersAvailable(_) => 0x29,
            Property::SharedSubscriptionAvailable(_) => 0x2A,
        }
    }
}

/// Whether some property of `ps` has identifier `id`.
fn contains_property(ps: &Vec<Property>, id: u8) -> (r: bool)
    ensures
        r == has_property(props_view(ps@), id),
{
    let mut i: usize = 0;
    while i < ps.len()
        invariant
            i <= ps@.len(),
            forall|j: int| 0 <= j < i ==> property_id(#[trigger] props_view(ps@)[j]) != id,
        decreases ps@.len() - i,
    {
        if ps[i].id() == id {
            assert(property_id(props_view(ps@)[i as int]) == id);
            return true;
        }
        i = i + 1;
    }
    false
}

/// Decodes the property section at the start of `src`, taking only the properties whose
/// identifiers are in `allowed`.
///
/// Ref: 2.2.2 Properties
pub fn decode_properties(src: &mut Shared, allowed: &[u8], repeatable: &[u8]) -> (r: Result<
    Vec<Property>,
    DecodeError,
>)
    ensures
        match (r, spec_decode_properties(old(src)@, allowed@, repeatable@)) {
            (Ok(ps), Ok((sps, n))) => props_view(ps@) == sps && final(src)@ == old(src)@.skip(n as int),
            (Err(e), Err(se)) => e@ == se,
            _ => false,
        },
{
    let ghost s = src@;
    let (len, n) = match decode_varint(src.as_slice()) {
        Ok(Some(ln)) => ln,
        Ok(None) => {
            return Err(DecodeError::IncompletePacket);
        },
        Err(e) => {
            return Err(e);
        },
    };
    let len = len as usize;
    src.drain(n);
    if src.len() < len {
        return Err(DecodeError::IncompletePacket);
    }
    let mut body = src.split_to(len);
    let ghost whole = body@;
    proof {
        assert(whole =~= s.subrange(n as int, n + len));
        assert(src@ =~= s.skip(n + len));
        assert(body@ =~= whole.skip(0));
        assert(spec_decode_properties(s, allowed@, repeatable@) == match spec_decode_property_list(
            whole,
            allowed@,
            repeatable@,
            Seq::empty(),
        ) {
            Ok(ps) => Ok((ps, (n + len) as nat)),
            Err(e) => Err(e),
        });
    }
    let mut ps: Vec<Property> = Vec::new();
    let ghost mut k: int = 0;
    proof {
        assert(props_view(ps@) =~= Seq::<PropertyView>::empty());
    }
    while body.len() > 0
        invariant
            0 <= k <= whole.len(),
            body@ == whole.skip(k),
            src@ == s.skip(n + len),
            s == old(src)@,
            spec_decode_properties(s, allowed@, repeatable@) == match spec_decode_property_list(
                whole,
                allowed@,
                repeatable@,
                Seq::empty(),
            ) {
                Ok(ps) => Ok((ps, (n + len) as nat)),
                Err(e) => Err(e),
            },
            spec_decode_property_list(whole, allowed@, repeatable@, Seq::empty()) == spec_decode_property_list(
                body@,
                allowed@,
                repeatable@,
                props_view(ps@),
            ),
        decreases body@.len(),
    {
        let ghost before = body@;
        let ghost acc = props_view(ps@);
        proof {
            lemma_decode_property_len(before);
        }
        let p = match Property::decode(&mut body) {
            Ok(p) => p,
            Err(e) => {
                proof {
                    assert(spec_decode_property_list(whole, allowed@, repeatable@, Seq::empty()) == Err::<
                        Seq<PropertyView>,
                        DecodeErrorView,
                    >(e@));
                }
                return Err(e);
            },
        };
        let id = p.id();
        if !is_allowed(allowed, id) {
            proof {
                assert(spec_decode_property_list(whole, allowed@, repeatable@, Seq::empty()) == Err::<
                    Seq<PropertyView>,
                    DecodeErrorView,
                >(DecodeErrorView::UnexpectedProperty));
            }
            return Err(DecodeError::UnexpectedProperty);
        }
        if !is_allowed(repeatable, id) && contains_property(&ps, id) {
            let name = property_name_of(id);
            proof {
                assert(spec_decode_property_list(whole, allowed@, repeatable@, Seq::empty()) == Err::<
                    Seq<PropertyView>,
                    DecodeErrorView,
                >(DecodeErrorView::DuplicateProperty(name@)));
            }
            return Err(DecodeError::DuplicateProperty(name));
        }
        ps.push(p);
        proof {
            assert(props_view(ps@) =~= acc.push(p@));
            k = k + (before.len() - body@.len());
            assert(body@ =~= whole.skip(k));
        }
    }
    Ok(ps)
}

/// The encodings of the properties of `ps`, one after another.
pub open spec fn spec_encode_property_list(ps: Seq<PropertyView>) -> Seq<u8>
    decreases ps.len(),
{
    if ps.len() == 0 {
        Seq::empty()
    } else {
        spec_encode_property_list(ps.drop_last()) + spec_encode_property(ps.last())
    }
}

/// The value of the first subscription identifier of `ps` that is too large to be encoded.
pub open spec fn first_unencodable(ps: Seq<PropertyView>) -> Option<u32>
    decreases ps.len(),
{
    if ps.len() == 0 {
        None
    } else {
        match first_unencodable(ps.drop_last()) {
            Some(v) => Some(v),
            None => match ps.last() {
                PropertyView::SubscriptionIdentifier(v) => if v > VARINT_MAX {
                    Some(v)
                } else {
                    None
                },
                _ => None,
            },
        }
    }
}

/// The encoding of a property section holding `ps`: the property length, then the properties.
pub open spec fn spec_encode_properties(ps: Seq<PropertyView>) -> Result<Seq<u8>, EncodeError> {
    match first_unencodable(ps) {
        Some(v) => Err(EncodeError::VarintTooHigh(v)),
        None => {
            let body = spec_encode_property_list(ps);
            if body.len() > VARINT_MAX {
                Err(EncodeError::RemainingLengthTooHigh(body.len() as usize))
            } else {
                Ok(spec_encode_varint(body.len()) + body)
            }
        },
    }
}

/// Without an unencodable property, every property is encodable.
proof fn lemma_first_unencodable(ps: Seq<PropertyView>, i: int)
    requires
        first_unencodable(ps) is None,
        0 <= i < ps.len(),
    ensures
        property_encodable(ps[i]),
    decreases ps.len(),
{
    if i < ps.len() - 1 {
        lemma_first_unencodable(ps.drop_last(), i);
        assert(ps.drop_last()[i] == ps[i]);
    }
}

/// Counts the bytes of the encodings of `ps`, or finds the first that cannot be encoded.
fn property_list_len(ps: &Vec<Property>) -> (r: Result<usize, EncodeError>)
    requires
        spec_encode_property_list(props_view(ps@)).len() <= usize::MAX,
    ensures
        match first_unencodable(props_view(ps@)) {
            Some(v) => r == Err::<usize, EncodeError>(EncodeError::VarintTooHigh(v)),
            None => r == Ok::<usize, EncodeError>(spec_encode_property_list(props_view(ps@)).len() as usize),
        },
{
    let mut total: usize = 0;
    let mut i: usize = 0;
    proof {
        assert(props_view(ps@).take(0) =~= Seq::<PropertyView>::empty());
    }
    while i < ps.len()
        invariant
            i <= ps@.len(),
            spec_encode_property_list(props_view(ps@)).len() <= usize::MAX,
            first_unencodable(props_view(ps@).take(i as int)) is None,
            total == spec_encode_property_list(props_view(ps@).take(i as int)).len(),
        decreases ps@.len() - i,
    {
        let ghost pv = props_view(ps@);
        proof {
            assert(pv.take(i + 1).drop_last() =~= pv.take(i as int));
            assert(pv.take(i + 1).last() == ps@[i as int]@);
            lemma_list_prefix_len(pv, i + 1);
        }
        match &ps[i] {
            Property::SubscriptionIdentifier(v) => {
                if *v > VARINT_MAX {
                    proof {
                        lemma_first_unencodable_prefix(pv, i + 1);
                    }
                    return Err(EncodeError::VarintTooHigh(*v));
                }
            },
            _ => {},
        }
        let n = ps[i].encoded_len();
        total = total + n;
        i = i + 1;
    }
    proof {
        assert(props_view(ps@).take(i as int) =~= props_view(ps@));
    }
    Ok(total)
}

/// The encoding of a prefix is no longer than the encoding of the whole.
proof fn lemma_list_prefix_len(ps: Seq<PropertyView>, i: int)
    requires
        0 <= i <= ps.len(),
    ensures
        spec_encode_property_list(ps.take(i)).len() <= spec_encode_property_list(ps).len(),
    decreases ps.len(),
{
    if i < ps.len() {
        assert(ps.drop_last().take(i) =~= ps.take(i));
        lemma_list_prefix_len(ps.drop_last(), i);
    } else {
        assert(ps.take(i) =~= ps);
    }
}

/// An unencodable property in a prefix is the first one of the whole.
proof fn lemma_first_unencodable_prefix(ps: Seq<PropertyView>, i: int)
    requires
        0 <= i <= ps.len(),
    ensures
        first_unencodable(ps.take(i)) is Some ==> first_unencodable(ps) == first_unencodable(ps.take(i)),
    decreases ps.len(),
{
    if i < ps.len() {
        assert(ps.drop_last().take(i) =~= ps.take(i));
        lemma_first_unencodable_prefix(ps.drop_last(), i);
    } else {
        assert(ps.take(i) =~= ps);
    }
}

/// Checks that a property section holding `ps` can be encoded, giving the error its encoding
/// would.
pub fn check_properties(ps: &Vec<Property>) -> (r: Result<(), EncodeError>)
    requires
        spec_encode_property_list(props_view(ps@)).len() <= usize::MAX,
    ensures
        match spec_encode_properties(props_view(ps@)) {
            Ok(_) => r is Ok,
            Err(e) => r == Err::<(), EncodeError>(e),
        },
{
    let len = property_list_len(ps)?;
    if len > VARINT_MAX as usize {
        return Err(EncodeError::RemainingLengthTooHigh(len));
    }
    Ok(())
}

/// Appends a property section holding `ps` to `dst`: the property length, then the properties.
///
/// Ref: 2.2.2 Properties
pub fn encode_properties<B: BytesAccumulator>(ps: &Vec<Property>, dst: &mut B) -> (r: Result<
    (),
    EncodeError,
>)
    requires
        old(dst).wf(),
        spec_encode_property_list(props_view(ps@)).len() <= usize::MAX,
        spec_encode_properties(props_view(ps@)) matches Ok(bytes) ==> bytes.len() <= old(dst).spare(),
    ensures
        final(dst).wf(),
        match spec_encode_properties(props_view(ps@)) {
            Ok(bytes) => r is Ok && final(dst).contents() == old(dst).contents() + bytes
                && final(dst).spare() >= old(dst).spare() - bytes.len(),
            Err(e) => r == Err::<(), EncodeError>(e) && final(dst).contents() == old(dst).contents(),
        },
{
    let len = property_list_len(ps)?;
    if len > VARINT_MAX as usize {
        return Err(EncodeError::RemainingLengthTooHigh(len));
    }
    let _ = crate::mqtt_proto::encode_remaining_length(len, dst);
    let ghost start = dst.contents();
    let mut i: usize = 0;
    proof {
        assert(props_view(ps@).take(0) =~= Seq::<PropertyView>::empty());
        assert(start + Seq::<u8>::empty() =~= start);
    }
    while i < ps.len()
        invariant
            i <= ps@.len(),
            first_unencodable(props_view(ps@)) is None,
            spec_encode_property_list(props_view(ps@)).len() == len,
            dst.wf(),
            dst.contents() == start + spec_encode_property_list(props_view(ps@).take(i as int)),
            dst.spare() + spec_encode_property_list(props_view(ps@).take(i as int)).len() >= len
                + (old(dst).spare() - (spec_encode_varint(len as nat).len() + len)),
            old(dst).spare() >= spec_encode_varint(len as nat).len() + len,
            start == old(dst).contents() + spec_encode_varint(len as nat),
        decreases ps@.len() - i,
    {
        let ghost pv = props_view(ps@);
        proof {
            assert(pv.take(i + 1).drop_last() =~= pv.take(i as int));
            assert(pv.take(i + 1).last() == ps@[i as int]@);
            lemma_list_prefix_len(pv, i + 1);
            lemma_first_unencodable(pv, i as int);
            lemma_property_attempt(&ps@[i as int]);
            dst.lemma_room();
        }
        let _ = ps[i].encode(dst);
        proof {
            assert(start + spec_encode_property_list(pv.take(i as int)) + spec_encode_property(pv[i as int])
                =~= start + spec_encode_property_list(pv.take(i + 1)));
        }
        i = i + 1;
    }
    proof {
        assert(props_view(ps@).take(i as int) =~= props_view(ps@));
        assert(old(dst).contents() + spec_encode_varint(len as nat) + spec_encode_property_list(props_view(ps@))
            =~= old(dst).contents() + (spec_encode_varint(len as nat) + spec_encode_property_list(props_view(ps@))));
    }
    Ok(())
}


// ---------------------------------------------------------------------------------------------
// Taking values out of decoded properties
// ---------------------------------------------------------------------------------------------

/// The last property of `ps` with identifier `id`; after decoding there is at most one.
pub open spec fn spec_find_property(ps: Seq<PropertyView>, id: u8) -> Option<PropertyView>
    decreases ps.len(),
{
    if ps.len() == 0 {
        None
    } else if property_id(ps.last()) == id {
        Some(ps.last())
    } else {
        spec_find_property(ps.drop_last(), id)
    }
}

/// The user properties of `ps`, in order.
pub open spec fn spec_user_properties(ps: Seq<PropertyView>) -> Seq<(Seq<u8>, Seq<u8>)>
    decreases ps.len(),
{
    if ps.len() == 0 {
        Seq::empty()
    } else {
        match ps.last() {
            PropertyView::UserProperty(n, v) => spec_user_properties(ps.drop_last()).push((n, v)),
            _ => spec_user_properties(ps.drop_last()),
        }
    }
}

/// The subscription identifiers of `ps`, in order.
pub open spec fn spec_subscription_identifiers(ps: Seq<PropertyView>) -> Seq<u32>
    decreases ps.len(),
{
    if ps.len() == 0 {
        Seq::empty()
    } else {
        match ps.last() {
            PropertyView::SubscriptionIdentifier(v) => spec_subscription_identifiers(ps.drop_last()).push(v),
            _ => spec_subscription_identifiers(ps.drop_last()),
        }
    }
}

/// The views of user properties.
pub open spec fn user_properties_view(v: Seq<(ByteStr, ByteStr)>) -> Seq<(Seq<u8>, Seq<u8>)> {
    v.map_values(|p: (ByteStr, ByteStr)| (p.0@, p.1@))
}

/// The last property of `ps` with identifier `id`.
pub fn find_property<'a>(ps: &'a Vec<Property>, id: u8) -> (r: Option<&'a Property>)
    ensures
        match spec_find_property(props_view(ps@), id) {
            Some(p) => r matches Some(q) && q@ == p,
            None => r is None,
        },
{
    let mut found: Option<&Property> = None;
    let mut i: usize = 0;
    proof {
        assert(props_view(ps@).take(0) =~= Seq::<PropertyView>::empty());
    }
    while i < ps.len()
        invariant
            i <= ps@.len(),
            match spec_find_property(props_view(ps@).take(i as int), id) {
                Some(p) => found matches Some(q) && q@ == p,
                None => found is None,
            },
        decreases ps@.len() - i,
    {
        proof {
            let pv = props_view(ps@);
            assert(pv.take(i + 1).drop_last() =~= pv.take(i as int));
            assert(pv.take(i + 1).last() == ps@[i as int]@);
        }
        if ps[i].id() == id {
            found = Some(&ps[i]);
        }
        i = i + 1;
    }
    proof {
        assert(props_view(ps@).take(i as int) =~= props_view(ps@));
    }
    found
}

/// The user properties of `ps`, in order.
pub fn user_properties_of(ps: &Vec<Property>) -> (r: Vec<(ByteStr, ByteStr)>)
    ensures
        user_properties_view(r@) == spec_user_properties(props_view(ps@)),
{
    let mut out: Vec<(ByteStr, ByteStr)> = Vec::new();
    let mut i: usize = 0;
    proof {
        assert(props_view(ps@).take(0) =~= Seq::<PropertyView>::empty());
        assert(user_properties_view(out@) =~= Seq::<(Seq<u8>, Seq<u8>)>::empty());
    }
    while i < ps.len()
        invariant
            i <= ps@.len(),
            user_properties_view(out@) == spec_user_properties(props_view(ps@).take(i as int)),
        decreases ps@.len() - i,
    {
        let ghost prev = out@;
        proof {
            let pv = props_view(ps@);
            assert(pv.take(i + 1).drop_last() =~= pv.take(i as int));
            assert(pv.take(i + 1).last() == ps@[i as int]@);
        }
        match &ps[i] {
            Property::UserProperty(n, v) => {
                out.push((n.clone(), v.clone()));
                proof {
                    assert(user_properties_view(out@) =~= user_properties_view(prev).push((n@, v@)));
                }
            },
            _ => {},
        }
        i = i + 1;
    }
    proof {
        assert(props_view(ps@).take(i as int) =~= props_view(ps@));
    }
    out
}

/// The subscription identifiers of `ps`, in order.
pub fn subscription_identifiers_of(ps: &Vec<Property>) -> (r: Vec<u32>)
    ensures
        r@ == spec_subscription_identifiers(props_view(ps@)),
{
    let mut out: Vec<u32> = Vec::new();
    let mut i: usize = 0;
    proof {
        assert(props_view(ps@).take(0) =~= Seq::<PropertyView>::empty());
    }
    while i < ps.len()
        invariant
            i <= ps@.len(),
            out@ == spec_subscription_identifiers(props_view(ps@).take(i as int)),
        decreases ps@.len() - i,
    {
        proof {
            let pv = props_view(ps@);
            assert(pv.take(i + 1).drop_last() =~= pv.take(i as int));
            assert(pv.take(i + 1).last() == ps@[i as int]@);
        }
        match &ps[i] {
            Property::SubscriptionIdentifier(v) => {
                out.push(*v);
            },
            _ => {},
        }
        i = i + 1;
    }
    proof {
        assert(props_view(ps@).take(i as int) =~= props_view(ps@));
    }
    out
}

/// Appends a user property for each pair of `user_properties` to `ps`.
pub fn push_user_properties(ps: &mut Vec<Property>, user_properties: &Vec<(ByteStr, ByteStr)>)
    ensures
        props_view(final(ps)@) == props_view(old(ps)@) + user_properties_as_props(
            user_properties_view(user_properties@),
        ),
{
    let mut i: usize = 0;
    proof {
        assert(user_properties_view(user_properties@).take(0) =~= Seq::<(Seq<u8>, Seq<u8>)>::empty());
        assert(props_view(ps@) =~= props_view(old(ps)@) + user_properties_as_props(Seq::empty()));
    }
    while i < user_properties.len()
        invariant
            i <= user_properties@.len(),
            props_view(ps@) == props_view(old(ps)@) + user_properties_as_props(
                user_properties_view(user_properties@).take(i as int),
            ),
        decreases user_properties@.len() - i,
    {
        let ghost prev = props_view(ps@);
        let (n, v) = &user_properties[i];
        ps.push(Property::UserProperty(n.clone(), v.clone()));
        proof {
            let u = user_properties_view(user_properties@);
            assert(u.take(i + 1) =~= u.take(i as int).push(u[i as int]));
            assert(props_view(ps@) =~= prev.push(PropertyView::UserProperty(n@, v@)));
            assert(user_properties_as_props(u.take(i + 1)) =~= user_properties_as_props(u.take(i as int)).push(
                PropertyView::UserProperty(n@, v@),
            ));
        }
        i = i + 1;
    }
    proof {
        assert(user_properties_view(user_properties@).take(i as int) =~= user_properties_view(user_properties@));
    }
}

/// User properties as properties.
pub open spec fn user_properties_as_props(u: Seq<(Seq<u8>, Seq<u8>)>) -> Seq<PropertyView> {
    u.map_values(|p: (Seq<u8>, Seq<u8>)| PropertyView::UserProperty(p.0, p.1))
}


// ---------------------------------------------------------------------------------------------
// Decoding what was encoded
// ---------------------------------------------------------------------------------------------

/// Whether the values a property holds are well-formed: strings are length-prefixed UTF-8,
/// topic names are valid, and integers that may not be 0 are not.
pub open spec fn property_wf(p: PropertyView) -> bool {
    match p {
        PropertyView::AssignedClientIdentifier(raw) => is_byte_str(raw),
        PropertyView::AuthenticationMethod(raw) => is_byte_str(raw),
        PropertyView::ContentType(raw) => is_byte_str(raw),
        PropertyView::ReasonString(raw) => is_byte_str(raw),
        PropertyView::ResponseInformation(raw) => is_byte_str(raw),
        PropertyView::ServerReference(raw) => is_byte_str(raw),
        PropertyView::AuthenticationData(raw) => is_length_prefixed(raw),
        PropertyView::CorrelationData(c) => c.len() <= 65535,
        PropertyView::MaximumPacketSize(v) => v != 0,
        PropertyView::ReceiveMaximum(v) => v != 0,
        PropertyView::ResponseTopic(raw) => is_byte_str(raw) && spec_check_topic(raw.skip(2)) is Ok,
        PropertyView::ServerKeepAlive(k) => k matches KeepAlive::Duration(d) ==> d@ != 0,
        PropertyView::SessionExpiryInterval(i) => i matches SessionExpiryInterval::Duration(d) ==> d
            != u32::MAX,
        PropertyView::SubscriptionIdentifier(v) => v <= VARINT_MAX,
        PropertyView::TopicAlias(v) => v != 0,
        PropertyView::UserProperty(n, v) => is_byte_str(n) && is_byte_str(v),
        _ => true,
    }
}

/// Decoding a string property.
proof fn lemma_decode_str_property(id: u8, raw: Seq<u8>, rest: Seq<u8>)
    requires
        is_str_id(id),
        is_byte_str(raw),
    ensures
        spec_decode_property(seq![id] + raw + rest) == Ok::<(PropertyView, nat), DecodeErrorView>(
            (str_property(id, raw), 1 + raw.len()),
        ),
{
    reveal(spec_decode_property);
    let s = seq![id] + raw + rest;
    assert(s.skip(1) =~= raw + rest);
    crate::mqtt_proto::byte_str::lemma_decode_byte_str_prefix(raw, rest);
}

/// Decoding a four-byte-integer property.
proof fn lemma_decode_u32_property(id: u8, v: u32, rest: Seq<u8>)
    requires
        is_u32_id(id),
        u32_property(id, v) is Ok,
    ensures
        spec_decode_property(seq![id] + u32_be_bytes(v) + rest) == Ok::<(PropertyView, nat), DecodeErrorView>(
            (u32_property(id, v)->Ok_0, 5),
        ),
{
    reveal(spec_decode_property);
    let s = seq![id] + u32_be_bytes(v) + rest;
    assert(s.skip(1) =~= u32_be_bytes(v) + rest);
    buffer_pool::lemma_be_u32_roundtrip(v, rest);
}

/// Decoding a two-byte-integer property.
proof fn lemma_decode_u16_property(id: u8, v: u16, rest: Seq<u8>)
    requires
        is_u16_id(id),
        u16_property(id, v) is Ok,
    ensures
        spec_decode_property(seq![id] + u16_be_bytes(v) + rest) == Ok::<(PropertyView, nat), DecodeErrorView>(
            (u16_property(id, v)->Ok_0, 3),
        ),
{
    reveal(spec_decode_property);
    let s = seq![id] + u16_be_bytes(v) + rest;
    assert(s.skip(1) =~= u16_be_bytes(v) + rest);
    buffer_pool::lemma_be_u16_roundtrip(v, rest);
}

/// Decoding a boolean property.
proof fn lemma_decode_bool_property(id: u8, b: u8, rest: Seq<u8>)
    requires
        is_bool_id(id),
        b == 0 || b == 1,
    ensures
        spec_decode_property(two_bytes(id, b) + rest) == Ok::<(PropertyView, nat), DecodeErrorView>(
            (bool_property(id, b == 1), 2),
        ),
{
    reveal(spec_decode_property);
    let s = two_bytes(id, b) + rest;
    assert(s[0] == id);
    assert(s.skip(1)[0] == b);
}

/// Decoding a maximum QoS property.
proof fn lemma_decode_qos_property(q: QoS, rest: Seq<u8>)
    requires
        !(q is ExactlyOnce),
    ensures
        spec_decode_property(two_bytes(0x24, q.spec_code()) + rest) == Ok::<
            (PropertyView, nat),
            DecodeErrorView,
        >((PropertyView::MaximumQoS(q), 2)),
{
    reveal(spec_decode_property);
    let s = two_bytes(0x24, q.spec_code()) + rest;
    assert(s[0] == 0x24);
    assert(s.skip(1)[0] == q.spec_code());
}

/// Decoding a response topic, binary data or correlation data property.
proof fn lemma_decode_prefixed_property(id: u8, raw: Seq<u8>, rest: Seq<u8>)
    requires
        id == 0x08 ==> is_byte_str(raw) && spec_check_topic(raw.skip(2)) is Ok,
        id == 0x09 || id == 0x16 ==> is_length_prefixed(raw),
        id == 0x08 || id == 0x09 || id == 0x16,
    ensures
        spec_decode_property(seq![id] + raw + rest) == Ok::<(PropertyView, nat), DecodeErrorView>(
            (
                if id == 0x08 {
                    PropertyView::ResponseTopic(raw)
                } else if id == 0x09 {
                    PropertyView::CorrelationData(raw.skip(2))
                } else {
                    PropertyView::AuthenticationData(raw)
                },
                1 + raw.len(),
            ),
        ),
{
    reveal(spec_decode_property);
    let s = seq![id] + raw + rest;
    assert(s.skip(1) =~= raw + rest);
    if id == 0x08 {
        crate::mqtt_proto::byte_str::lemma_decode_byte_str_prefix(raw, rest);
    } else {
        crate::mqtt_proto::binary_data::lemma_is_length_prefixed(raw);
        crate::mqtt_proto::binary_data::lemma_length_prefixed(raw.skip(2), rest);
    }
}

/// Decoding a subscription identifier or a user property.
proof fn lemma_decode_other_property(p: PropertyView, rest: Seq<u8>)
    requires
        property_wf(p),
        p is SubscriptionIdentifier || p is UserProperty,
    ensures
        spec_decode_property(spec_encode_property(p) + rest) == Ok::<(PropertyView, nat), DecodeErrorView>(
            (p, spec_encode_property(p).len()),
        ),
{
    reveal(spec_decode_property);
    let s = spec_encode_property(p) + rest;
    let r = s.skip(1);
    match p {
        PropertyView::SubscriptionIdentifier(v) => {
            assert(r =~= spec_encode_varint(v as nat) + rest);
            crate::mqtt_proto::lemma_varint_roundtrip(v as nat, rest);
        },
        PropertyView::UserProperty(n, v) => {
            assert(r =~= n + (v + rest));
            crate::mqtt_proto::byte_str::lemma_decode_byte_str_prefix(n, v + rest);
            assert(r.skip(n.len() as int) =~= v + rest);
            crate::mqtt_proto::byte_str::lemma_decode_byte_str_prefix(v, rest);
        },
        _ => {},
    }
}

/// Whether decoding can give a property back: a session expiry interval of 0xFFFFFFFF seconds
/// is read back as one that never expires, and a subscription identifier beyond a variable byte
/// integer cannot be encoded at all.
pub open spec fn property_values_valid(p: PropertyView) -> bool {
    match p {
        PropertyView::SessionExpiryInterval(i) => i matches SessionExpiryInterval::Duration(d) ==> d
            != u32::MAX,
        PropertyView::SubscriptionIdentifier(v) => v <= VARINT_MAX,
        _ => true,
    }
}

/// A property that decoding can give back is well formed: its strings, binary data and non-zero
/// numbers are, as their types keep them.
fn lemma_property_wf(p: &Property)
    ensures
        property_values_valid(p@) ==> property_wf(p@),
{
    match p {
        Property::MaximumPacketSize(n) => {
            proof {
                use_type_invariant(n);
            }
        },
        Property::ReceiveMaximum(n) | Property::TopicAlias(n) => {
            proof {
                use_type_invariant(n);
            }
        },
        Property::ServerKeepAlive(k) => {
            if let KeepAlive::Duration(d) = k {
                proof {
                    use_type_invariant(d);
                }
            }
        },
        Property::AssignedClientIdentifier(s) | Property::AuthenticationMethod(s)
        | Property::ContentType(s) | Property::ReasonString(s) | Property::ResponseInformation(s)
        | Property::ServerReference(s) => {
            proof {
                use_type_invariant(s);
            }
        },
        Property::AuthenticationData(b) => {
            proof {
                use_type_invariant(b);
            }
        },
        Property::CorrelationData(c) => {
            if let CorrelationData::Variable(b) = c {
                proof {
                    use_type_invariant(b);
                    crate::mqtt_proto::binary_data::lemma_is_length_prefixed(b@);
                }
            }
        },
        Property::ResponseTopic(t) => {
            proof {
                use_type_invariant(t);
            }
        },
        Property::UserProperty(n, v) => {
            proof {
                use_type_invariant(n);
                use_type_invariant(v);
            }
        },
        _ => {},
    }
}

/// Decoding the encoding of a well-formed property gives the property back, and tells how many
/// bytes it took, whatever follows it. (A property that holds the value assumed in its absence
/// encodes to nothing, and so is not decoded.)
pub proof fn lemma_property_roundtrip(p: PropertyView, rest: Seq<u8>)
    requires
        property_wf(p),
        spec_encode_property(p).len() > 0,
    ensures
        spec_decode_property(spec_encode_property(p) + rest) == Ok::<(PropertyView, nat), DecodeErrorView>(
            (p, spec_encode_property(p).len()),
        ),
{
    let e = spec_encode_property(p);
    match p {
        PropertyView::AssignedClientIdentifier(raw) => lemma_decode_str_property(0x12, raw, rest),
        PropertyView::AuthenticationMethod(raw) => lemma_decode_str_property(0x15, raw, rest),
        PropertyView::ContentType(raw) => lemma_decode_str_property(0x03, raw, rest),
        PropertyView::ReasonString(raw) => lemma_decode_str_property(0x1F, raw, rest),
        PropertyView::ResponseInformation(raw) => lemma_decode_str_property(0x1A, raw, rest),
        PropertyView::ServerReference(raw) => lemma_decode_str_property(0x1C, raw, rest),
        PropertyView::ResponseTopic(raw) => lemma_decode_prefixed_property(0x08, raw, rest),
        PropertyView::AuthenticationData(raw) => lemma_decode_prefixed_property(0x16, raw, rest),
        PropertyView::CorrelationData(c) => {
            crate::mqtt_proto::binary_data::lemma_length_prefixed(c, Seq::empty());
            lemma_decode_prefixed_property(0x09, length_prefixed(c), rest);
        },
        PropertyView::MaximumPacketSize(v) => lemma_decode_u32_property(0x27, v, rest),
        PropertyView::MessageExpiryInterval(v) => lemma_decode_u32_property(0x02, v, rest),
        PropertyView::WillDelayInterval(v) => lemma_decode_u32_property(0x18, v, rest),
        PropertyView::SessionExpiryInterval(i) => lemma_decode_u32_property(0x11, i.spec_to_u32(), rest),
        PropertyView::ReceiveMaximum(v) => lemma_decode_u16_property(0x21, v, rest),
        PropertyView::TopicAlias(v) => lemma_decode_u16_property(0x23, v, rest),
        PropertyView::TopicAliasMaximum(v) => lemma_decode_u16_property(0x22, v, rest),
        PropertyView::ServerKeepAlive(k) => lemma_decode_u16_property(0x13, k.spec_to_u16(), rest),
        PropertyView::PayloadIsUtf8(_) => lemma_decode_bool_property(0x01, 1, rest),
        PropertyView::RequestProblemInformation(_) => lemma_decode_bool_property(0x17, 0, rest),
        PropertyView::RequestResponseInformation(_) => lemma_decode_bool_property(0x19, 1, rest),
        PropertyView::RetainAvailable(_) => lemma_decode_bool_property(0x25, 0, rest),
        PropertyView::SharedSubscriptionAvailable(_) => lemma_decode_bool_property(0x2A, 0, rest),
        PropertyView::SubscriptionIdentifiersAvailable(_) => lemma_decode_bool_property(0x29, 0, rest),
        PropertyView::WildcardSubscriptionAvailable(_) => lemma_decode_bool_property(0x28, 0, rest),
        PropertyView::MaximumQoS(q) => lemma_decode_qos_property(q, rest),
        PropertyView::SubscriptionIdentifier(_) => lemma_decode_other_property(p, rest),
        PropertyView::UserProperty(_, _) => lemma_decode_other_property(p, rest),
    }
}


/// Whether no two properties of `ps` that may occur only once share an identifier.
pub open spec fn no_duplicate_properties(ps: Seq<PropertyView>, repeatable: Seq<u8>) -> bool {
    forall|i: int, j: int|
        0 <= i < j < ps.len() && !repeatable.contains(property_id(#[trigger] ps[i])) ==> property_id(ps[i])
            != property_id(#[trigger] ps[j])
}

/// Whether every property of `ps` is well-formed, is taken by the packet (`allowed`), and
/// encodes to something.
pub open spec fn properties_decodable(ps: Seq<PropertyView>, allowed: Seq<u8>, repeatable: Seq<u8>) -> bool {
    &&& forall|i: int| 0 <= i < ps.len() ==> property_wf(#[trigger] ps[i])
    &&& forall|i: int| 0 <= i < ps.len() ==> spec_encode_property(#[trigger] ps[i]).len() > 0
    &&& forall|i: int| 0 <= i < ps.len() ==> allowed.contains(property_id(#[trigger] ps[i]))
    &&& no_duplicate_properties(ps, repeatable)
}

/// The encoding of a list is the encoding of its first property followed by that of the rest.
pub proof fn lemma_encode_property_list_first(ps: Seq<PropertyView>)
    requires
        ps.len() > 0,
    ensures
        spec_encode_property_list(ps) == spec_encode_property(ps[0]) + spec_encode_property_list(
            ps.drop_first(),
        ),
    decreases ps.len(),
{
    if ps.len() == 1 {
        assert(ps.drop_last() =~= Seq::<PropertyView>::empty());
        assert(ps.drop_first() =~= Seq::<PropertyView>::empty());
        assert(spec_encode_property_list(ps.drop_last()) == Seq::<u8>::empty());
        assert(spec_encode_property_list(ps.drop_first()) == Seq::<u8>::empty());
        assert(ps.last() == ps[0]);
        assert(spec_encode_property_list(ps) =~= spec_encode_property(ps[0]) + Seq::<u8>::empty());
    } else {
        lemma_encode_property_list_first(ps.drop_last());
        assert(ps.drop_last().drop_first() =~= ps.drop_first().drop_last());
        assert(ps.drop_first().last() == ps.last());
        assert(spec_encode_property_list(ps) =~= spec_encode_property(ps[0]) + spec_encode_property_list(
            ps.drop_first(),
        ));
    }
}

/// Decoding the encodings of `ps`, after `acc`, gives back `acc` followed by `ps`.
proof fn lemma_decode_property_list_roundtrip(
    ps: Seq<PropertyView>,
    allowed: Seq<u8>,
    repeatable: Seq<u8>,
    acc: Seq<PropertyView>,
)
    requires
        properties_decodable(acc + ps, allowed, repeatable),
    ensures
        spec_decode_property_list(spec_encode_property_list(ps), allowed, repeatable, acc) == Ok::<
            Seq<PropertyView>,
            DecodeErrorView,
        >(acc + ps),
    decreases ps.len(),
{
    let all = acc + ps;
    if ps.len() == 0 {
        assert(acc + ps =~= acc);
    } else {
        let p = ps[0];
        let tail = spec_encode_property_list(ps.drop_first());
        lemma_encode_property_list_first(ps);
        let s = spec_encode_property_list(ps);
        assert(all[acc.len() as int] == p);
        lemma_property_roundtrip(p, tail);
        let n = spec_encode_property(p).len();
        assert(s.skip(n as int) =~= tail);
        if !repeatable.contains(property_id(p)) && has_property(acc, property_id(p)) {
            let i = choose|i: int| 0 <= i < acc.len() && property_id(#[trigger] acc[i]) == property_id(p);
            assert(all[i] == acc[i]);
            assert(false);
        }
        assert(acc.push(p) + ps.drop_first() =~= all);
        lemma_decode_property_list_roundtrip(ps.drop_first(), allowed, repeatable, acc.push(p));
    }
}

/// Decoding an encoded property section gives back its properties, and tells how many bytes it
/// took, whatever follows it.
pub proof fn lemma_properties_roundtrip(
    ps: Seq<PropertyView>,
    allowed: Seq<u8>,
    repeatable: Seq<u8>,
    rest: Seq<u8>,
)
    requires
        properties_decodable(ps, allowed, repeatable),
        spec_encode_properties(ps) is Ok,
    ensures
        spec_decode_properties(spec_encode_properties(ps)->Ok_0 + rest, allowed, repeatable) == Ok::<
            (Seq<PropertyView>, nat),
            DecodeErrorView,
        >((ps, spec_encode_properties(ps)->Ok_0.len())),
{
    let body = spec_encode_property_list(ps);
    let len = body.len();
    let s = spec_encode_properties(ps)->Ok_0 + rest;
    crate::mqtt_proto::lemma_varint_roundtrip(len, body + rest);
    assert(s =~= spec_encode_varint(len) + (body + rest));
    let n = spec_encode_varint(len).len();
    assert(s.subrange(n as int, (n + len) as int) =~= body);
    assert(Seq::<PropertyView>::empty() + ps =~= ps);
    lemma_decode_property_list_roundtrip(ps, allowed, repeatable, Seq::empty());
}

/// An encoded property section is at least one byte long.
pub proof fn lemma_encode_properties_len(ps: Seq<PropertyView>)
    requires
        spec_encode_properties(ps) is Ok,
    ensures
        spec_encode_properties(ps)->Ok_0.len() >= 1,
{
    crate::mqtt_proto::lemma_encode_varint(spec_encode_property_list(ps).len());
}

/// Each property has the identifier byte that the protocol gives it. The encoding of a property
/// starts with its identifier, a property decodes only as the kind that its first byte names, and
/// a first byte that names no property is refused as an unrecognized identifier.
///
/// Ref: 2.2.2.2 Property
pub proof fn lemma_property_identifier_table(p: PropertyView, s: Seq<u8>)
    ensures
        p matches PropertyView::PayloadIsUtf8(_) ==> property_id(p) == 0x01u8,
        p matches PropertyView::MessageExpiryInterval(_) ==> property_id(p) == 0x02u8,
        p matches PropertyView::ContentType(_) ==> property_id(p) == 0x03u8,
        p matches PropertyView::ResponseTopic(_) ==> property_id(p) == 0x08u8,
        p matches PropertyView::CorrelationData(_) ==> property_id(p) == 0x09u8,
        p matches PropertyView::SubscriptionIdentifier(_) ==> property_id(p) == 0x0Bu8,
        p matches PropertyView::SessionExpiryInterval(_) ==> property_id(p) == 0x11u8,
        p matches PropertyView::AssignedClientIdentifier(_) ==> property_id(p) == 0x12u8,
        p matches PropertyView::ServerKeepAlive(_) ==> property_id(p) == 0x13u8,
        p matches PropertyView::AuthenticationMethod(_) ==> property_id(p) == 0x15u8,
        p matches PropertyView::AuthenticationData(_) ==> property_id(p) == 0x16u8,
        p matches PropertyView::RequestProblemInformation(_) ==> property_id(p) == 0x17u8,
        p matches PropertyView::WillDelayInterval(_) ==> property_id(p) == 0x18u8,
        p matches PropertyView::RequestResponseInformation(_) ==> property_id(p) == 0x19u8,
        p matches PropertyView::ResponseInformation(_) ==> property_id(p) == 0x1Au8,
        p matches PropertyView::ServerReference(_) ==> property_id(p) == 0x1Cu8,
        p matches PropertyView::ReasonString(_) ==> property_id(p) == 0x1Fu8,
        p matches PropertyView::ReceiveMaximum(_) ==> property_id(p) == 0x21u8,
        p matches PropertyView::TopicAliasMaximum(_) ==> property_id(p) == 0x22u8,
        p matches PropertyView::TopicAlias(_) ==> property_id(p) == 0x23u8,
        p matches PropertyView::MaximumQoS(_) ==> property_id(p) == 0x24u8,
        p matches PropertyView::RetainAvailable(_) ==> property_id(p) == 0x25u8,
        p matches PropertyView::UserProperty(_, _) ==> property_id(p) == 0x26u8,
        p matches PropertyView::MaximumPacketSize(_) ==> property_id(p) == 0x27u8,
        p matches PropertyView::WildcardSubscriptionAvailable(_) ==> property_id(p) == 0x28u8,
        p matches PropertyView::SubscriptionIdentifiersAvailable(_) ==> property_id(p) == 0x29u8,
        p matches PropertyView::SharedSubscriptionAvailable(_) ==> property_id(p) == 0x2Au8,
        spec_encode_property(p).len() > 0 ==> spec_encode_property(p)[0] == property_id(p),
        spec_decode_property(s) matches Ok((q, _)) ==> s.len() > 0 && property_id(q) == s[0],
        s.len() > 0 && !({
            let id = s[0];
            id == 0x01u8 || id == 0x02u8 || id == 0x03u8 || id == 0x08u8 || id == 0x09u8 || id == 0x0Bu8 || id == 0x11u8 || id == 0x12u8 || id == 0x13u8 || id == 0x15u8 || id == 0x16u8 || id == 0x17u8 || id == 0x18u8 || id == 0x19u8 || id == 0x1Au8 || id == 0x1Cu8 || id == 0x1Fu8 || id == 0x21u8 || id == 0x22u8 || id == 0x23u8 || id == 0x24u8 || id == 0x25u8 || id == 0x26u8 || id == 0x27u8 || id == 0x28u8 || id == 0x29u8 || id == 0x2Au8
        }) ==> spec_decode_property(s) == Err::<(PropertyView, nat), DecodeErrorView>(
            DecodeErrorView::UnrecognizedPropertyIdentifier(s[0]),
        ),
{
    reveal(spec_decode_property);
}

} // verus!
