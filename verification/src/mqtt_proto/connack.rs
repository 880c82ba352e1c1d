//! Ref: 3.2 CONNACK – Acknowledge connection request
use vstd::prelude::*;

use crate::buffer_pool::accumulators::try_put_u8;
use crate::buffer_pool::{self, BytesAccumulator, Owned, Shared};
use crate::mqtt_proto::binary_data::BinaryData;
use crate::mqtt_proto::byte_str::ByteStr;
use crate::mqtt_proto::codes::{ConnectionRefusedReason, QoS};
use crate::mqtt_proto::auth::{authentication_props, spec_authentication_of};
use crate::mqtt_proto::packet_fields::{
    clone_opt_str, clone_user_properties, find_bool, find_bytes, find_int, find_keep_alive,
    find_qos, find_session_expiry, no_user_properties, opt_prop, opt_str_prop, opt_str_to_shared,
    push_str_property, take_authentication_data, take_bool_property, take_int_property,
    take_maximum_packet_size, take_nonzero_u16_property,
    take_keep_alive, take_qos, take_session_expiry, take_str_property, user_properties_to_shared,
};
use crate::mqtt_proto::properties::{
    user_properties_repeat,
    check_properties, decode_properties, encode_properties, props_view, push_user_properties,
    spec_decode_properties, spec_encode_properties, spec_encode_property_list, spec_user_properties,
    user_properties_as_props, user_properties_of, user_properties_view, Property, PropertyView,
};
use crate::mqtt_proto::property::{opt_view, Authentication, KeepAlive, NonZeroU16, NonZeroU32, SessionExpiryInterval};
use crate::mqtt_proto::{try_get_u8, DecodeError, DecodeErrorView, EncodeError, ProtocolVersion};

verus! {

broadcast use crate::mqtt_proto::property::group_nonzero;

/// Ref: 3.2.2.2 Connect Reason Code
#[derive(Clone, Copy, Debug, PartialEq, Eq, Structural)]
pub enum ConnectReasonCode {
    Success { session_present: bool },
    Refused(ConnectionRefusedReason),
}

/// The return codes of a refused connection in v3.
///
/// Ref: 3.1.1: 3.2.2.3 Connect Return code
pub const V3_UNACCEPTABLE_PROTOCOL_VERSION: u8 = 0x01;
pub const V3_IDENTIFIER_REJECTED: u8 = 0x02;
pub const V3_SERVER_UNAVAILABLE: u8 = 0x03;
pub const V3_BAD_USER_NAME_OR_PASSWORD: u8 = 0x04;
pub const V3_NOT_AUTHORIZED: u8 = 0x05;

impl ConnectReasonCode {
    /// The reason code that `code` stands for in a CONNACK of `version`.
    pub open spec fn spec_try_from(code: u8, session_present: bool, version: ProtocolVersion) -> Result<
        ConnectReasonCode,
        DecodeErrorView,
    > {
        if code == 0x00 {
            Ok(ConnectReasonCode::Success { session_present })
        } else if version == ProtocolVersion::V3 {
            if code == V3_UNACCEPTABLE_PROTOCOL_VERSION {
                Ok(ConnectReasonCode::Refused(ConnectionRefusedReason::UnsupportedProtocolVersion))
            } else if code == V3_IDENTIFIER_REJECTED {
                Ok(ConnectReasonCode::Refused(ConnectionRefusedReason::ClientIdentifierNotValid))
            } else if code == V3_SERVER_UNAVAILABLE {
                Ok(ConnectReasonCode::Refused(ConnectionRefusedReason::ServerUnavailable))
            } else if code == V3_BAD_USER_NAME_OR_PASSWORD {
                Ok(ConnectReasonCode::Refused(ConnectionRefusedReason::BadUserNameOrPassword))
            } else if code == V3_NOT_AUTHORIZED {
                Ok(ConnectReasonCode::Refused(ConnectionRefusedReason::NotAuthorized))
            } else {
                Err(DecodeErrorView::UnrecognizedConnectReturnCode(code))
            }
        } else {
            match ConnectionRefusedReason::spec_from_code(code) {
                Some(r) => Ok(ConnectReasonCode::Refused(r)),
                None => Err(DecodeErrorView::UnrecognizedConnectReasonCode(code)),
            }
        }
    }

    /// The code of this reason code in a CONNACK of `version`. A v3 CONNACK has no code for most
    /// refusals; they are sent as "server unavailable".
    pub open spec fn spec_to_u8(self, version: ProtocolVersion) -> u8 {
        match self {
            ConnectReasonCode::Success { .. } => 0x00,
            ConnectReasonCode::Refused(r) => if version == ProtocolVersion::V5 {
                r.spec_code()
            } else {
                match r {
                    ConnectionRefusedReason::UnsupportedProtocolVersion => V3_UNACCEPTABLE_PROTOCOL_VERSION,
                    ConnectionRefusedReason::ClientIdentifierNotValid => V3_IDENTIFIER_REJECTED,
                    ConnectionRefusedReason::BadUserNameOrPassword => V3_BAD_USER_NAME_OR_PASSWORD,
                    ConnectionRefusedReason::NotAuthorized => V3_NOT_AUTHORIZED,
                    _ => V3_SERVER_UNAVAILABLE,
                }
            },
        }
    }

    /// The reason code that `code` stands for in a CONNACK of `version`.
    pub fn try_from(code: u8, session_present: bool, version: ProtocolVersion) -> (r: Result<
        ConnectReasonCode,
        DecodeError,
    >)
        ensures
            match (r, ConnectReasonCode::spec_try_from(code, session_present, version)) {
                (Ok(c), Ok(sc)) => c == sc,
                (Err(e), Err(se)) => e@ == se,
                _ => false,
            },
    {
        if code == 0x00 {
            return Ok(ConnectReasonCode::Success { session_present });
        }
        match version {
            ProtocolVersion::V3 => {
                if code == V3_UNACCEPTABLE_PROTOCOL_VERSION {
                    Ok(ConnectReasonCode::Refused(ConnectionRefusedReason::UnsupportedProtocolVersion))
                } else if code == V3_IDENTIFIER_REJECTED {
                    Ok(ConnectReasonCode::Refused(ConnectionRefusedReason::ClientIdentifierNotValid))
                } else if code == V3_SERVER_UNAVAILABLE {
                    Ok(ConnectReasonCode::Refused(ConnectionRefusedReason::ServerUnavailable))
                } else if code == V3_BAD_USER_NAME_OR_PASSWORD {
                    Ok(ConnectReasonCode::Refused(ConnectionRefusedReason::BadUserNameOrPassword))
                } else if code == V3_NOT_AUTHORIZED {
                    Ok(ConnectReasonCode::Refused(ConnectionRefusedReason::NotAuthorized))
                } else {
                    Err(DecodeError::UnrecognizedConnectReturnCode(code))
                }
            },
            ProtocolVersion::V5 => match ConnectionRefusedReason::from_code(code) {
                Ok(r) => Ok(ConnectReasonCode::Refused(r)),
                Err(e) => Err(e),
            },
        }
    }

    /// The code of this reason code in a CONNACK of `version`.
    pub fn to_u8(self, version: ProtocolVersion) -> (r: u8)
        ensures
            r == self.spec_to_u8(version),
    {
        match self {
            ConnectReasonCode::Success { .. } => 0x00,
            ConnectReasonCode::Refused(r) => match version {
                ProtocolVersion::V5 => r.to_code(),
                ProtocolVersion::V3 => match r {
                    ConnectionRefusedReason::UnsupportedProtocolVersion => V3_UNACCEPTABLE_PROTOCOL_VERSION,
                    ConnectionRefusedReason::ClientIdentifierNotValid => V3_IDENTIFIER_REJECTED,
                    ConnectionRefusedReason::BadUserNameOrPassword => V3_BAD_USER_NAME_OR_PASSWORD,
                    ConnectionRefusedReason::NotAuthorized => V3_NOT_AUTHORIZED,
                    _ => V3_SERVER_UNAVAILABLE,
                },
            },
        }
    }
}

/// The properties of a CONNACK besides its reason code. Those that are not optional hold the
/// value the protocol assumes when the property is absent, unless the server sent another.
#[derive(Debug, PartialEq, Eq)]
pub struct ConnAckOtherProperties {
    pub session_expiry_interval: Option<SessionExpiryInterval>,
    pub receive_maximum: NonZeroU16,
    pub maximum_qos: QoS,
    pub retain_available: bool,
    pub maximum_packet_size: NonZeroU32,
    pub assigned_client_id: Option<ByteStr>,
    pub topic_alias_maximum: u16,
    pub reason_string: Option<ByteStr>,
    pub user_properties: Vec<(ByteStr, ByteStr)>,
    pub wildcard_subscription_available: bool,
    pub shared_subscription_available: bool,
    pub subscription_identifiers_available: bool,
    pub server_keep_alive: Option<KeepAlive>,
    pub response_information: Option<ByteStr>,
    pub server_reference: Option<ByteStr>,
    pub authentication: Option<Authentication>,
}

/// The properties of a CONNACK with their strings taken as their bytes.
pub struct ConnAckOtherPropertiesView {
    pub session_expiry_interval: Option<SessionExpiryInterval>,
    pub receive_maximum: u16,
    pub maximum_qos: QoS,
    pub retain_available: bool,
    pub maximum_packet_size: u32,
    pub assigned_client_id: Option<Seq<u8>>,
    pub topic_alias_maximum: u16,
    pub reason_string: Option<Seq<u8>>,
    pub user_properties: Seq<(Seq<u8>, Seq<u8>)>,
    pub wildcard_subscription_available: bool,
    pub shared_subscription_available: bool,
    pub subscription_identifiers_available: bool,
    pub server_keep_alive: Option<KeepAlive>,
    pub response_information: Option<Seq<u8>>,
    pub server_reference: Option<Seq<u8>>,
    pub authentication: Option<(Seq<u8>, Option<Seq<u8>>)>,
}

impl View for ConnAckOtherProperties {
    type V = ConnAckOtherPropertiesView;

    open spec fn view(&self) -> ConnAckOtherPropertiesView {
        ConnAckOtherPropertiesView {
            session_expiry_interval: self.session_expiry_interval,
            receive_maximum: self.receive_maximum@,
            maximum_qos: self.maximum_qos,
            retain_available: self.retain_available,
            maximum_packet_size: self.maximum_packet_size@,
            assigned_client_id: opt_view(self.assigned_client_id),
            topic_alias_maximum: self.topic_alias_maximum,
            reason_string: opt_view(self.reason_string),
            user_properties: user_properties_view(self.user_properties@),
            wildcard_subscription_available: self.wildcard_subscription_available,
            shared_subscription_available: self.shared_subscription_available,
            subscription_identifiers_available: self.subscription_identifiers_available,
            server_keep_alive: self.server_keep_alive,
            response_information: opt_view(self.response_information),
            server_reference: opt_view(self.server_reference),
            authentication: opt_view(self.authentication),
        }
    }
}

/// The properties of a CONNACK that sent none.
pub open spec fn connack_default_properties() -> ConnAckOtherPropertiesView {
    ConnAckOtherPropertiesView {
        session_expiry_interval: None,
        receive_maximum: u16::MAX,
        maximum_qos: QoS::ExactlyOnce,
        retain_available: true,
        maximum_packet_size: u32::MAX,
        assigned_client_id: None,
        topic_alias_maximum: 0,
        reason_string: None,
        user_properties: Seq::empty(),
        wildcard_subscription_available: true,
        shared_subscription_available: true,
        subscription_identifiers_available: true,
        server_keep_alive: None,
        response_information: None,
        server_reference: None,
        authentication: None,
    }
}

impl Default for ConnAckOtherProperties {
    fn default() -> (r: Self)
        ensures
            r@ == connack_default_properties(),
    {
        ConnAckOtherProperties {
            session_expiry_interval: None,
            receive_maximum: NonZeroU16::max_value(),
            maximum_qos: QoS::ExactlyOnce,
            retain_available: true,
            maximum_packet_size: NonZeroU32::max_value(),
            assigned_client_id: None,
            topic_alias_maximum: 0,
            reason_string: None,
            user_properties: no_user_properties(),
            wildcard_subscription_available: true,
            shared_subscription_available: true,
            subscription_identifiers_available: true,
            server_keep_alive: None,
            response_information: None,
            server_reference: None,
            authentication: None,
        }
    }
}

/// Ref: 3.2 CONNACK – Acknowledge connection request
#[derive(Debug, PartialEq, Eq)]
pub struct ConnAck {
    pub reason_code: ConnectReasonCode,
    pub other_properties: ConnAckOtherProperties,
}

/// A CONNACK with its strings taken as their bytes.
pub struct ConnAckView {
    pub reason_code: ConnectReasonCode,
    pub other_properties: ConnAckOtherPropertiesView,
}

impl View for ConnAck {
    type V = ConnAckView;

    open spec fn view(&self) -> ConnAckView {
        ConnAckView { reason_code: self.reason_code, other_properties: self.other_properties@ }
    }
}

/// The identifiers of the properties a CONNACK takes.
pub open spec fn connack_allowed() -> Seq<u8> {
    seq![
        0x11u8, 0x21u8, 0x24u8, 0x25u8, 0x27u8, 0x12u8, 0x22u8, 0x1Fu8, 0x26u8, 0x28u8, 0x2Au8, 0x29u8,
        0x13u8, 0x1Au8, 0x1Cu8, 0x15u8, 0x16u8
    ]
}

/// The value of `o`, or `d` if there is none.
pub open spec fn or_default<T>(o: Option<T>, d: T) -> T {
    match o {
        Some(v) => v,
        None => d,
    }
}

/// The properties of a CONNACK from its decoded properties `ps`, and the authentication they
/// hold.
pub open spec fn connack_properties_from(
    ps: Seq<PropertyView>,
    authentication: Option<(Seq<u8>, Option<Seq<u8>>)>,
) -> ConnAckOtherPropertiesView {
    ConnAckOtherPropertiesView {
        session_expiry_interval: find_session_expiry(ps),
        receive_maximum: or_default(find_int(ps, 0x21), 65535u32) as u16,
        maximum_qos: or_default(find_qos(ps), QoS::ExactlyOnce),
        retain_available: or_default(find_bool(ps, 0x25), true),
        maximum_packet_size: or_default(find_int(ps, 0x27), u32::MAX),
        assigned_client_id: find_bytes(ps, 0x12),
        topic_alias_maximum: or_default(find_int(ps, 0x22), 0u32) as u16,
        reason_string: find_bytes(ps, 0x1F),
        user_properties: spec_user_properties(ps),
        wildcard_subscription_available: or_default(find_bool(ps, 0x28), true),
        shared_subscription_available: or_default(find_bool(ps, 0x2A), true),
        subscription_identifiers_available: or_default(find_bool(ps, 0x29), true),
        server_keep_alive: find_keep_alive(ps),
        response_information: find_bytes(ps, 0x1A),
        server_reference: find_bytes(ps, 0x1C),
        authentication,
    }
}

/// Decodes the body of a CONNACK: the packet and the number of bytes it took.
pub open spec fn spec_decode_connack(s: Seq<u8>, version: ProtocolVersion) -> Result<
    (ConnAckView, nat),
    DecodeErrorView,
> {
    if s.len() < 1 {
        Err(DecodeErrorView::IncompletePacket)
    } else if s[0] > 1 {
        Err(DecodeErrorView::UnrecognizedConnAckFlags(s[0]))
    } else if s.len() < 2 {
        Err(DecodeErrorView::IncompletePacket)
    } else {
        match ConnectReasonCode::spec_try_from(s[1], s[0] == 1, version) {
            Err(e) => Err(e),
            Ok(rc) => if version == ProtocolVersion::V3 {
                Ok((ConnAckView { reason_code: rc, other_properties: connack_default_properties() }, 2))
            } else {
                match spec_decode_properties(s.skip(2), connack_allowed(), user_properties_repeat()) {
                    Err(e) => Err(e),
                    Ok((ps, n)) => match spec_authentication_of(find_bytes(ps, 0x15), find_bytes(ps, 0x16)) {
                        Err(e) => Err(e),
                        Ok(a) => Ok(
                            (
                                ConnAckView {
                                    reason_code: rc,
                                    other_properties: connack_properties_from(ps, a),
                                },
                                2 + n,
                            ),
                        ),
                    },
                }
            },
        }
    }
}

/// The property `p` if `c` holds.
pub open spec fn prop_if(c: bool, p: PropertyView) -> Seq<PropertyView> {
    if c {
        seq![p]
    } else {
        Seq::empty()
    }
}

/// The properties a CONNACK encodes, in order. Those that hold the value assumed in their absence
/// are left out.
pub open spec fn connack_properties(v: ConnAckOtherPropertiesView) -> Seq<PropertyView> {
    connack_limits(v) + connack_info(v) + connack_features(v) + connack_references(v)
}

/// The session and packet limits of a CONNACK, as properties.
pub open spec fn connack_limits(v: ConnAckOtherPropertiesView) -> Seq<PropertyView> {
    opt_prop(
        match v.session_expiry_interval {
            Some(i) => Some(PropertyView::SessionExpiryInterval(i)),
            None => None,
        },
    ) + prop_if(v.receive_maximum < u16::MAX, PropertyView::ReceiveMaximum(v.receive_maximum))
        + prop_if(!(v.maximum_qos is ExactlyOnce), PropertyView::MaximumQoS(v.maximum_qos))
        + prop_if(!v.retain_available, PropertyView::RetainAvailable(false)) + prop_if(
        v.maximum_packet_size < u32::MAX,
        PropertyView::MaximumPacketSize(v.maximum_packet_size),
    )
}

/// The client identifier, topic alias limit, reason string and user properties of a CONNACK, as
/// properties.
pub open spec fn connack_info(v: ConnAckOtherPropertiesView) -> Seq<PropertyView> {
    opt_str_prop(v.assigned_client_id, 0x12) + prop_if(
        v.topic_alias_maximum > 0,
        PropertyView::TopicAliasMaximum(v.topic_alias_maximum),
    ) + opt_str_prop(v.reason_string, 0x1F) + user_properties_as_props(v.user_properties)
}

/// The features a CONNACK reports missing and its keep alive, as properties.
pub open spec fn connack_features(v: ConnAckOtherPropertiesView) -> Seq<PropertyView> {
    prop_if(!v.wildcard_subscription_available, PropertyView::WildcardSubscriptionAvailable(false))
        + prop_if(!v.shared_subscription_available, PropertyView::SharedSubscriptionAvailable(false))
        + prop_if(
        !v.subscription_identifiers_available,
        PropertyView::SubscriptionIdentifiersAvailable(false),
    ) + opt_prop(
        match v.server_keep_alive {
            Some(k) => Some(PropertyView::ServerKeepAlive(k)),
            None => None,
        },
    )
}

/// The response information, server reference and authentication of a CONNACK, as properties.
pub open spec fn connack_references(v: ConnAckOtherPropertiesView) -> Seq<PropertyView> {
    opt_str_prop(v.response_information, 0x1A) + opt_str_prop(v.server_reference, 0x1C)
        + authentication_props(v.authentication)
}

/// Whether the session-present flag is set: only a successful CONNACK can set it.
pub open spec fn session_present(rc: ConnectReasonCode) -> bool {
    match rc {
        ConnectReasonCode::Success { session_present } => session_present,
        _ => false,
    }
}

/// Encodes the body of a CONNACK: the flags, the reason code, and in v5 the properties.
pub open spec fn spec_encode_connack(v: ConnAckView, version: ProtocolVersion) -> Result<
    Seq<u8>,
    EncodeError,
> {
    let head = seq![
        if session_present(v.reason_code) {
            1u8
        } else {
            0u8
        },
        v.reason_code.spec_to_u8(version),
    ];
    if version == ProtocolVersion::V3 {
        Ok(head)
    } else {
        match spec_encode_properties(connack_properties(v.other_properties)) {
            Err(e) => Err(e),
            Ok(props) => Ok(head + props),
        }
    }
}

impl ConnAck {
    pub const PACKET_TYPE: u8 = 0x20;

    /// Whether the connection was accepted.
    pub fn is_success(&self) -> (r: bool)
        ensures
            r == (self.reason_code is Success),
    {
        match self.reason_code {
            ConnectReasonCode::Success { .. } => true,
            _ => false,
        }
    }

    /// Decodes the body of a CONNACK from `src`.
    pub fn decode(_flags: u8, src: &mut Shared, version: ProtocolVersion) -> (r: Result<
        ConnAck,
        DecodeError,
    >)
        ensures
            match (r, spec_decode_connack(old(src)@, version)) {
                (Ok(p), Ok((v, n))) => p@ == v && final(src)@ == old(src)@.skip(n as int),
                (Err(e), Err(se)) => e@ == se,
                _ => false,
            },
    {
        let ghost s = src@;
        let connack_flags = try_get_u8(src)?;
        if connack_flags > 1 {
            return Err(DecodeError::UnrecognizedConnAckFlags(connack_flags));
        }
        let code = try_get_u8(src)?;
        proof {
            assert(s.skip(1)[0] == s[1]);
            assert(src@ =~= s.skip(2));
        }
        let reason_code = ConnectReasonCode::try_from(code, connack_flags == 1, version)?;
        if version.is_v3() {
            return Ok(ConnAck { reason_code, other_properties: ConnAckOtherProperties::default() });
        }
        let allowed: [u8; 17] = [
            0x11, 0x21, 0x24, 0x25, 0x27, 0x12, 0x22, 0x1F, 0x26, 0x28, 0x2A, 0x29, 0x13, 0x1A, 0x1C,
            0x15, 0x16,
        ];
        proof {
            assert(allowed@ =~= connack_allowed());
        }
        let repeatable: [u8; 1] = [0x26];
        proof {
            assert(repeatable@ =~= user_properties_repeat());
        }
        let ps = decode_properties(src, allowed.as_slice(), repeatable.as_slice())?;
        proof {
            assert(src@ =~= s.skip(2 + (s.skip(2).len() - src@.len())));
        }
        let method = take_str_property(&ps, 0x15);
        let data = take_authentication_data(&ps);
        let authentication = Authentication::of(method, data)?;
        let other_properties = ConnAckOtherProperties {
            session_expiry_interval: take_session_expiry(&ps),
            receive_maximum: match take_nonzero_u16_property(&ps, 0x21) {
                Some(v) => v,
                None => NonZeroU16::max_value(),
            },
            maximum_qos: match take_qos(&ps) {
                Some(q) => q,
                None => QoS::ExactlyOnce,
            },
            retain_available: match take_bool_property(&ps, 0x25) {
                Some(b) => b,
                None => true,
            },
            maximum_packet_size: match take_maximum_packet_size(&ps) {
                Some(v) => v,
                None => NonZeroU32::max_value(),
            },
            assigned_client_id: take_str_property(&ps, 0x12),
            topic_alias_maximum: match take_int_property(&ps, 0x22) {
                Some(v) => v as u16,
                None => 0,
            },
            reason_string: take_str_property(&ps, 0x1F),
            user_properties: user_properties_of(&ps),
            wildcard_subscription_available: match take_bool_property(&ps, 0x28) {
                Some(b) => b,
                None => true,
            },
            shared_subscription_available: match take_bool_property(&ps, 0x2A) {
                Some(b) => b,
                None => true,
            },
            subscription_identifiers_available: match take_bool_property(&ps, 0x29) {
                Some(b) => b,
                None => true,
            },
            server_keep_alive: take_keep_alive(&ps),
            response_information: take_str_property(&ps, 0x1A),
            server_reference: take_str_property(&ps, 0x1C),
            authentication,
        };
        Ok(ConnAck { reason_code, other_properties })
    }

    /// Encodes the body of this CONNACK into `dst`.
    pub fn encode<B: BytesAccumulator>(&self, dst: &mut B, version: ProtocolVersion) -> (r: Result<
        (),
        EncodeError,
    >)
        requires
            old(dst).wf(),
            spec_encode_property_list(connack_properties(self@.other_properties)).len() <= usize::MAX,
            spec_encode_connack(self@, version) matches Ok(bytes) ==> bytes.len() <= old(dst).spare(),
        ensures
            final(dst).wf(),
            match spec_encode_connack(self@, version) {
                Ok(bytes) => r is Ok && final(dst).contents() == old(dst).contents() + bytes
                    && final(dst).spare() >= old(dst).spare() - bytes.len(),
                Err(e) => r == Err::<(), EncodeError>(e) && final(dst).contents() == old(
                    dst,
                ).contents(),
            },
    {
        let flags: u8 = match self.reason_code {
            ConnectReasonCode::Success { session_present } => if session_present {
                1
            } else {
                0
            },
            _ => 0,
        };
        let code = self.reason_code.to_u8(version);
        if version.is_v3() {
            let _ = try_put_u8(dst, flags);
            let _ = try_put_u8(dst, code);
            proof {
                assert(old(dst).contents().push(flags).push(code) =~= old(dst).contents() + seq![
                    flags,
                    code,
                ]);
            }
            return Ok(());
        }
        let ps = self.other_properties.to_properties();
        check_properties(&ps)?;
        let _ = try_put_u8(dst, flags);
        let _ = try_put_u8(dst, code);
        let _ = encode_properties(&ps, dst);
        proof {
            let bytes = spec_encode_properties(props_view(ps@))->Ok_0;
            assert(old(dst).contents().push(flags).push(code) + bytes =~= old(dst).contents() + (seq![
                flags,
                code,
            ] + bytes));
        }
        Ok(())
    }

    /// Copies this CONNACK into new buffers taken from `owned`.
    pub fn to_shared(&self, owned: &mut Owned) -> (r: Result<ConnAck, buffer_pool::Error>)
        requires
            old(owned)@.0.len() == 0,
        ensures
            r matches Ok(p) && p@ == self@,
            final(owned)@.0.len() == 0,
    {
        Ok(ConnAck { reason_code: self.reason_code, other_properties: self.other_properties.to_shared(owned)? })
    }
}

impl ConnAckOtherProperties {
    /// The properties these encode to, in order.
    pub fn to_properties(&self) -> (r: Vec<Property>)
        ensures
            props_view(r@) == connack_properties(self@),
    {
        let mut ps: Vec<Property> = Vec::new();
        proof {
            assert(props_view(ps@) =~= Seq::<PropertyView>::empty());
        }
        self.push_limits(&mut ps);
        self.push_info(&mut ps);
        self.push_features(&mut ps);
        self.push_references(&mut ps);
        proof {
            let v = self@;
            assert(Seq::<PropertyView>::empty() + connack_limits(v) + connack_info(v) + connack_features(v)
                + connack_references(v) =~= connack_properties(v));
        }
        ps
    }

    #[verifier::spinoff_prover]
    #[verifier::rlimit(60)]
    fn push_limits(&self, ps: &mut Vec<Property>)
        ensures
            props_view(final(ps)@) == props_view(old(ps)@) + connack_limits(self@),
    {
        let ghost p0 = props_view(ps@);
        if let Some(i) = self.session_expiry_interval {
            ps.push(Property::SessionExpiryInterval(i));
        }
        let ghost p1 = props_view(ps@);
        if self.receive_maximum.get() < u16::MAX {
            ps.push(Property::ReceiveMaximum(self.receive_maximum));
        }
        let ghost p2 = props_view(ps@);
        match self.maximum_qos {
            QoS::ExactlyOnce => {},
            q => {
                ps.push(Property::MaximumQoS(q));
            },
        }
        let ghost p3 = props_view(ps@);
        if !self.retain_available {
            ps.push(Property::RetainAvailable(false));
        }
        let ghost p4 = props_view(ps@);
        if self.maximum_packet_size.get() < u32::MAX {
            ps.push(Property::MaximumPacketSize(self.maximum_packet_size));
        }
        proof {
            let v = self@;
            assert(p1 =~= p0 + opt_prop(
                match v.session_expiry_interval {
                    Some(i) => Some(PropertyView::SessionExpiryInterval(i)),
                    None => None,
                },
            ));
            assert(p2 =~= p1 + prop_if(v.receive_maximum < u16::MAX, PropertyView::ReceiveMaximum(v.receive_maximum)));
            assert(p3 =~= p2 + prop_if(!(v.maximum_qos is ExactlyOnce), PropertyView::MaximumQoS(v.maximum_qos)));
            assert(p4 =~= p3 + prop_if(!v.retain_available, PropertyView::RetainAvailable(false)));
            assert(props_view(ps@) =~= p4 + prop_if(
                v.maximum_packet_size < u32::MAX,
                PropertyView::MaximumPacketSize(v.maximum_packet_size),
            ));
            assert(props_view(ps@) =~= p0 + connack_limits(v));
        }
    }

    fn push_info(&self, ps: &mut Vec<Property>)
        ensures
            props_view(final(ps)@) == props_view(old(ps)@) + connack_info(self@),
    {
        let ghost p0 = props_view(ps@);
        push_str_property(ps, &self.assigned_client_id, 0x12);
        let ghost p1 = props_view(ps@);
        if self.topic_alias_maximum > 0 {
            ps.push(Property::TopicAliasMaximum(self.topic_alias_maximum));
        }
        let ghost p2 = props_view(ps@);
        push_str_property(ps, &self.reason_string, 0x1F);
        push_user_properties(ps, &self.user_properties);
        proof {
            let v = self@;
            assert(p2 =~= p1 + prop_if(v.topic_alias_maximum > 0, PropertyView::TopicAliasMaximum(v.topic_alias_maximum)));
            assert(props_view(ps@) =~= p0 + connack_info(v));
        }
    }

    fn push_features(&self, ps: &mut Vec<Property>)
        ensures
            props_view(final(ps)@) == props_view(old(ps)@) + connack_features(self@),
    {
        let ghost p0 = props_view(ps@);
        if !self.wildcard_subscription_available {
            ps.push(Property::WildcardSubscriptionAvailable(false));
        }
        let ghost p1 = props_view(ps@);
        if !self.shared_subscription_available {
            ps.push(Property::SharedSubscriptionAvailable(false));
        }
        let ghost p2 = props_view(ps@);
        if !self.subscription_identifiers_available {
            ps.push(Property::SubscriptionIdentifiersAvailable(false));
        }
        let ghost p3 = props_view(ps@);
        if let Some(k) = self.server_keep_alive {
            ps.push(Property::ServerKeepAlive(k));
        }
        proof {
            let v = self@;
            assert(p1 =~= p0 + prop_if(!v.wildcard_subscription_available, PropertyView::WildcardSubscriptionAvailable(false)));
            assert(p2 =~= p1 + prop_if(!v.shared_subscription_available, PropertyView::SharedSubscriptionAvailable(false)));
            assert(p3 =~= p2 + prop_if(!v.subscription_identifiers_available, PropertyView::SubscriptionIdentifiersAvailable(false)));
            assert(props_view(ps@) =~= p3 + opt_prop(
                match v.server_keep_alive {
                    Some(k) => Some(PropertyView::ServerKeepAlive(k)),
                    None => None,
                },
            ));
            assert(props_view(ps@) =~= p0 + connack_features(v));
        }
    }

    fn push_references(&self, ps: &mut Vec<Property>)
        ensures
            props_view(final(ps)@) == props_view(old(ps)@) + connack_references(self@),
    {
        let ghost p0 = props_view(ps@);
        push_str_property(ps, &self.response_information, 0x1A);
        push_str_property(ps, &self.server_reference, 0x1C);
        let ghost p1 = props_view(ps@);
        if let Some(a) = &self.authentication {
            ps.push(Property::AuthenticationMethod(a.method.clone()));
            let ghost p2 = props_view(ps@);
            if let Some(d) = &a.data {
                ps.push(Property::AuthenticationData(d.clone()));
                proof {
                    assert(props_view(ps@) =~= p2.push(PropertyView::AuthenticationData(d@)));
                }
            }
            proof {
                assert(p2 =~= p1.push(PropertyView::AuthenticationMethod(a.method@)));
            }
        }
        proof {
            let v = self@;
            assert(props_view(ps@) =~= p1 + authentication_props(v.authentication));
            assert(props_view(ps@) =~= p0 + connack_references(v));
        }
    }

    /// Copies these properties into new buffers taken from `owned`.
    pub fn to_shared(&self, owned: &mut Owned) -> (r: Result<ConnAckOtherProperties, buffer_pool::Error>)
        requires
            old(owned)@.0.len() == 0,
        ensures
            r matches Ok(p) && p@ == self@,
            final(owned)@.0.len() == 0,
    {
        let assigned_client_id = opt_str_to_shared(&self.assigned_client_id, owned)?;
        let reason_string = opt_str_to_shared(&self.reason_string, owned)?;
        let user_properties = user_properties_to_shared(&self.user_properties, owned)?;
        let response_information = opt_str_to_shared(&self.response_information, owned)?;
        let server_reference = opt_str_to_shared(&self.server_reference, owned)?;
        let authentication = match &self.authentication {
            Some(a) => Some(a.to_shared(owned)?),
            None => None,
        };
        Ok(
            ConnAckOtherProperties {
                session_expiry_interval: self.session_expiry_interval,
                receive_maximum: self.receive_maximum,
                maximum_qos: self.maximum_qos,
                retain_available: self.retain_available,
                maximum_packet_size: self.maximum_packet_size,
                assigned_client_id,
                topic_alias_maximum: self.topic_alias_maximum,
                reason_string,
                user_properties,
                wildcard_subscription_available: self.wildcard_subscription_available,
                shared_subscription_available: self.shared_subscription_available,
                subscription_identifiers_available: self.subscription_identifiers_available,
                server_keep_alive: self.server_keep_alive,
                response_information,
                server_reference,
                authentication,
            },
        )
    }
}

impl Clone for ConnAckOtherProperties {
    fn clone(&self) -> (r: Self)
        ensures
            r@ == self@,
    {
        let authentication = match &self.authentication {
            Some(a) => Some(a.clone()),
            None => None,
        };
        ConnAckOtherProperties {
            session_expiry_interval: self.session_expiry_interval,
            receive_maximum: self.receive_maximum,
            maximum_qos: self.maximum_qos,
            retain_available: self.retain_available,
            maximum_packet_size: self.maximum_packet_size,
            assigned_client_id: clone_opt_str(&self.assigned_client_id),
            topic_alias_maximum: self.topic_alias_maximum,
            reason_string: clone_opt_str(&self.reason_string),
            user_properties: clone_user_properties(&self.user_properties),
            wildcard_subscription_available: self.wildcard_subscription_available,
            shared_subscription_available: self.shared_subscription_available,
            subscription_identifiers_available: self.subscription_identifiers_available,
            server_keep_alive: self.server_keep_alive,
            response_information: clone_opt_str(&self.response_information),
            server_reference: clone_opt_str(&self.server_reference),
            authentication,
        }
    }
}

impl Clone for ConnAck {
    fn clone(&self) -> (r: Self)
        ensures
            r@ == self@,
    {
        ConnAck { reason_code: self.reason_code, other_properties: self.other_properties.clone() }
    }
}


/// The body of a CONNACK starts with the acknowledge flags, whose bit 0 is session present and
/// whose other bits are 0, then the reason code, which is 0 exactly for a success. An encoded
/// CONNACK writes them so, and a decoded one reads them so; other flags are refused.
///
/// Ref: 3.2.2.1 Connect Acknowledge Flags; 3.2.2.2 Connect Reason Code
pub proof fn lemma_connack_header_bytes(v: ConnAckView, s: Seq<u8>, version: ProtocolVersion)
    ensures
        spec_encode_connack(v, version) matches Ok(b) ==> {
            &&& b.len() >= 2
            &&& b[0] == (if session_present(v.reason_code) {
                0x01u8
            } else {
                0x00u8
            })
            &&& b[1] == v.reason_code.spec_to_u8(version)
            &&& (b[1] == 0 <==> v.reason_code is Success)
        },
        spec_decode_connack(s, version) matches Ok((d, _)) ==> {
            &&& s.len() >= 2
            &&& s[0] == 0x00 || s[0] == 0x01
            &&& (d.reason_code is Success <==> s[1] == 0x00)
            &&& d.reason_code is Success ==> session_present(d.reason_code) == (s[0] == 0x01)
        },
        s.len() >= 1 && s[0] > 0x01 ==> spec_decode_connack(s, version) == Err::<(ConnAckView, nat), DecodeErrorView>(
            DecodeErrorView::UnrecognizedConnAckFlags(s[0]),
        ),
{
    if let ConnectReasonCode::Refused(r) = v.reason_code {
        r.lemma_code_roundtrip(0);
        assert(r.spec_code() >= 0x80);
    }
    if s.len() >= 2 {
        if let Some(r) = ConnectionRefusedReason::spec_from_code(s[1]) {
            r.lemma_code_roundtrip(s[1]);
        }
    }
}

} // verus!
