//! The byte that the protocol fixes for each single-byte code, stated value by value.
use vstd::prelude::*;

use crate::mqtt_proto::codes::{
    AuthenticateReasonCode, ConnectionRefusedReason, DisconnectReasonCode, PubAckReasonCode,
    PubCompReasonCode, PubRecReasonCode, PubRelReasonCode, QoS, RetainHandling, SubscribeReasonCode,
    UnsubAckReasonCode,
};
use crate::mqtt_proto::connack::ConnectReasonCode;
use crate::mqtt_proto::{DecodeErrorView, ProtocolVersion};

verus! {

/// Each QoS level of `QoS` has the byte that the protocol gives it and is
/// decoded from that byte; no byte outside the table decodes.
///
/// Ref: 4.3 Quality of Service levels and protocol flows
pub proof fn lemma_qos_bytes()
    ensures
        QoS::AtMostOnce.spec_code() == 0x00u8,
        QoS::spec_from_code(0x00u8) == Some(QoS::AtMostOnce),
        QoS::AtLeastOnce.spec_code() == 0x01u8,
        QoS::spec_from_code(0x01u8) == Some(QoS::AtLeastOnce),
        QoS::ExactlyOnce.spec_code() == 0x02u8,
        QoS::spec_from_code(0x02u8) == Some(QoS::ExactlyOnce),
        forall|c: u8| #[trigger] QoS::spec_from_code(c) is Some <==> (c == 0x00u8 || c == 0x01u8 || c == 0x02u8),
{
}

/// Each retain handling option of `RetainHandling` has the byte that the protocol gives it and is
/// decoded from that byte; no byte outside the table decodes.
///
/// Ref: 3.8.3.1 Subscription Options
pub proof fn lemma_retain_handling_bytes()
    ensures
        RetainHandling::Send.spec_code() == 0x00u8,
        RetainHandling::spec_from_code(0x00u8) == Some(RetainHandling::Send),
        RetainHandling::SendOnlyIfSubscriptionDoesNotCurrentlyExist.spec_code() == 0x01u8,
        RetainHandling::spec_from_code(0x01u8) == Some(RetainHandling::SendOnlyIfSubscriptionDoesNotCurrentlyExist),
        RetainHandling::DoNotSend.spec_code() == 0x02u8,
        RetainHandling::spec_from_code(0x02u8) == Some(RetainHandling::DoNotSend),
        forall|c: u8| #[trigger] RetainHandling::spec_from_code(c) is Some <==> (c == 0x00u8 || c == 0x01u8 || c == 0x02u8),
{
}

/// Each code of `AuthenticateReasonCode` has the byte that the protocol gives it and is
/// decoded from that byte; no byte outside the table decodes.
///
/// Ref: 3.15.2.1 Authenticate Reason Code
pub proof fn lemma_authenticate_reason_code_bytes()
    ensures
        AuthenticateReasonCode::Success.spec_code() == 0x00u8,
        AuthenticateReasonCode::spec_from_code(0x00u8) == Some(AuthenticateReasonCode::Success),
        AuthenticateReasonCode::ContinueAuthentication.spec_code() == 0x18u8,
        AuthenticateReasonCode::spec_from_code(0x18u8) == Some(AuthenticateReasonCode::ContinueAuthentication),
        AuthenticateReasonCode::ReAuthenticate.spec_code() == 0x19u8,
        AuthenticateReasonCode::spec_from_code(0x19u8) == Some(AuthenticateReasonCode::ReAuthenticate),
        forall|c: u8| #[trigger] AuthenticateReasonCode::spec_from_code(c) is Some <==> (c == 0x00u8 || c == 0x18u8 || c == 0x19u8),
{
}

/// Each code of `PubAckReasonCode` has the byte that the protocol gives it and is
/// decoded from that byte; no byte outside the table decodes.
///
/// Ref: 3.4.2.1 PUBACK Reason Code
pub proof fn lemma_puback_reason_code_bytes()
    ensures
        PubAckReasonCode::Success.spec_code() == 0x00u8,
        PubAckReasonCode::spec_from_code(0x00u8) == Some(PubAckReasonCode::Success),
        PubAckReasonCode::NoMatchingSubscribers.spec_code() == 0x10u8,
        PubAckReasonCode::spec_from_code(0x10u8) == Some(PubAckReasonCode::NoMatchingSubscribers),
        PubAckReasonCode::UnspecifiedError.spec_code() == 0x80u8,
        PubAckReasonCode::spec_from_code(0x80u8) == Some(PubAckReasonCode::UnspecifiedError),
        PubAckReasonCode::ImplementationSpecificError.spec_code() == 0x83u8,
        PubAckReasonCode::spec_from_code(0x83u8) == Some(PubAckReasonCode::ImplementationSpecificError),
        PubAckReasonCode::NotAuthorized.spec_code() == 0x87u8,
        PubAckReasonCode::spec_from_code(0x87u8) == Some(PubAckReasonCode::NotAuthorized),
        PubAckReasonCode::TopicNameInvalid.spec_code() == 0x90u8,
        PubAckReasonCode::spec_from_code(0x90u8) == Some(PubAckReasonCode::TopicNameInvalid),
        PubAckReasonCode::PacketIdentifierInUse.spec_code() == 0x91u8,
        PubAckReasonCode::spec_from_code(0x91u8) == Some(PubAckReasonCode::PacketIdentifierInUse),
        PubAckReasonCode::QuotaExceeded.spec_code() == 0x97u8,
        PubAckReasonCode::spec_from_code(0x97u8) == Some(PubAckReasonCode::QuotaExceeded),
        PubAckReasonCode::PayloadFormatInvalid.spec_code() == 0x99u8,
        PubAckReasonCode::spec_from_code(0x99u8) == Some(PubAckReasonCode::PayloadFormatInvalid),
        forall|c: u8| #[trigger] PubAckReasonCode::spec_from_code(c) is Some <==> (c == 0x00u8 || c == 0x10u8 || c == 0x80u8 || c == 0x83u8 || c == 0x87u8 || c == 0x90u8 || c == 0x91u8 || c == 0x97u8 || c == 0x99u8),
{
}

/// Each code of `PubCompReasonCode` has the byte that the protocol gives it and is
/// decoded from that byte; no byte outside the table decodes.
///
/// Ref: 3.7.2.1 PUBCOMP Reason Code
pub proof fn lemma_pubcomp_reason_code_bytes()
    ensures
        PubCompReasonCode::Success.spec_code() == 0x00u8,
        PubCompReasonCode::spec_from_code(0x00u8) == Some(PubCompReasonCode::Success),
        PubCompReasonCode::PacketIdentifierNotFound.spec_code() == 0x92u8,
        PubCompReasonCode::spec_from_code(0x92u8) == Some(PubCompReasonCode::PacketIdentifierNotFound),
        forall|c: u8| #[trigger] PubCompReasonCode::spec_from_code(c) is Some <==> (c == 0x00u8 || c == 0x92u8),
{
}

/// Each code of `PubRecReasonCode` has the byte that the protocol gives it and is
/// decoded from that byte; no byte outside the table decodes.
///
/// Ref: 3.5.2.1 PUBREC Reason Code
pub proof fn lemma_pubrec_reason_code_bytes()
    ensures
        PubRecReasonCode::Success.spec_code() == 0x00u8,
        PubRecReasonCode::spec_from_code(0x00u8) == Some(PubRecReasonCode::Success),
        PubRecReasonCode::NoMatchingSubscribers.spec_code() == 0x10u8,
        PubRecReasonCode::spec_from_code(0x10u8) == Some(PubRecReasonCode::NoMatchingSubscribers),
        PubRecReasonCode::UnspecifiedError.spec_code() == 0x80u8,
        PubRecReasonCode::spec_from_code(0x80u8) == Some(PubRecReasonCode::UnspecifiedError),
        PubRecReasonCode::ImplementationSpecificError.spec_code() == 0x83u8,
        PubRecReasonCode::spec_from_code(0x83u8) == Some(PubRecReasonCode::ImplementationSpecificError),
        PubRecReasonCode::NotAuthorized.spec_code() == 0x87u8,
        PubRecReasonCode::spec_from_code(0x87u8) == Some(PubRecReasonCode::NotAuthorized),
        PubRecReasonCode::TopicNameInvalid.spec_code() == 0x90u8,
        PubRecReasonCode::spec_from_code(0x90u8) == Some(PubRecReasonCode::TopicNameInvalid),
        PubRecReasonCode::PacketIdentifierInUse.spec_code() == 0x91u8,
        PubRecReasonCode::spec_from_code(0x91u8) == Some(PubRecReasonCode::PacketIdentifierInUse),
        PubRecReasonCode::QuotaExceeded.spec_code() == 0x97u8,
        PubRecReasonCode::spec_from_code(0x97u8) == Some(PubRecReasonCode::QuotaExceeded),
        PubRecReasonCode::PayloadFormatInvalid.spec_code() == 0x99u8,
        PubRecReasonCode::spec_from_code(0x99u8) == Some(PubRecReasonCode::PayloadFormatInvalid),
        forall|c: u8| #[trigger] PubRecReasonCode::spec_from_code(c) is Some <==> (c == 0x00u8 || c == 0x10u8 || c == 0x80u8 || c == 0x83u8 || c == 0x87u8 || c == 0x90u8 || c == 0x91u8 || c == 0x97u8 || c == 0x99u8),
{
}

/// Each code of `PubRelReasonCode` has the byte that the protocol gives it and is
/// decoded from that byte; no byte outside the table decodes.
///
/// Ref: 3.6.2.1 PUBREL Reason Code
pub proof fn lemma_pubrel_reason_code_bytes()
    ensures
        PubRelReasonCode::Success.spec_code() == 0x00u8,
        PubRelReasonCode::spec_from_code(0x00u8) == Some(PubRelReasonCode::Success),
        PubRelReasonCode::PacketIdentifierNotFound.spec_code() == 0x92u8,
        PubRelReasonCode::spec_from_code(0x92u8) == Some(PubRelReasonCode::PacketIdentifierNotFound),
        forall|c: u8| #[trigger] PubRelReasonCode::spec_from_code(c) is Some <==> (c == 0x00u8 || c == 0x92u8),
{
}

/// Each code of `UnsubAckReasonCode` has the byte that the protocol gives it and is
/// decoded from that byte; no byte outside the table decodes.
///
/// Ref: 3.11.3 UNSUBACK Payload
pub proof fn lemma_unsuback_reason_code_bytes()
    ensures
        UnsubAckReasonCode::Success.spec_code() == 0x00u8,
        UnsubAckReasonCode::spec_from_code(0x00u8) == Some(UnsubAckReasonCode::Success),
        UnsubAckReasonCode::NoSubscriptionExisted.spec_code() == 0x11u8,
        UnsubAckReasonCode::spec_from_code(0x11u8) == Some(UnsubAckReasonCode::NoSubscriptionExisted),
        UnsubAckReasonCode::UnspecifiedError.spec_code() == 0x80u8,
        UnsubAckReasonCode::spec_from_code(0x80u8) == Some(UnsubAckReasonCode::UnspecifiedError),
        UnsubAckReasonCode::ImplementationSpecificError.spec_code() == 0x83u8,
        UnsubAckReasonCode::spec_from_code(0x83u8) == Some(UnsubAckReasonCode::ImplementationSpecificError),
        UnsubAckReasonCode::NotAuthorized.spec_code() == 0x87u8,
        UnsubAckReasonCode::spec_from_code(0x87u8) == Some(UnsubAckReasonCode::NotAuthorized),
        UnsubAckReasonCode::TopicFilterInvalid.spec_code() == 0x8Fu8,
        UnsubAckReasonCode::spec_from_code(0x8Fu8) == Some(UnsubAckReasonCode::TopicFilterInvalid),
        UnsubAckReasonCode::PacketIdentifierInUse.spec_code() == 0x91u8,
        UnsubAckReasonCode::spec_from_code(0x91u8) == Some(UnsubAckReasonCode::PacketIdentifierInUse),
        forall|c: u8| #[trigger] UnsubAckReasonCode::spec_from_code(c) is Some <==> (c == 0x00u8 || c == 0x11u8 || c == 0x80u8 || c == 0x83u8 || c == 0x87u8 || c == 0x8Fu8 || c == 0x91u8),
{
}

/// Each code of `SubscribeReasonCode` has the byte that the protocol gives it and is
/// decoded from that byte; no byte outside the table decodes.
///
/// Ref: 3.9.3 SUBACK Payload
pub proof fn lemma_subscribe_reason_code_bytes()
    ensures
        SubscribeReasonCode::GrantedQoS0.spec_code() == 0x00u8,
        SubscribeReasonCode::spec_from_code(0x00u8) == Some(SubscribeReasonCode::GrantedQoS0),
        SubscribeReasonCode::GrantedQoS1.spec_code() == 0x01u8,
        SubscribeReasonCode::spec_from_code(0x01u8) == Some(SubscribeReasonCode::GrantedQoS1),
        SubscribeReasonCode::GrantedQoS2.spec_code() == 0x02u8,
        SubscribeReasonCode::spec_from_code(0x02u8) == Some(SubscribeReasonCode::GrantedQoS2),
        SubscribeReasonCode::UnspecifiedError.spec_code() == 0x80u8,
        SubscribeReasonCode::spec_from_code(0x80u8) == Some(SubscribeReasonCode::UnspecifiedError),
        SubscribeReasonCode::ImplementationSpecificError.spec_code() == 0x83u8,
        SubscribeReasonCode::spec_from_code(0x83u8) == Some(SubscribeReasonCode::ImplementationSpecificError),
        SubscribeReasonCode::NotAuthorized.spec_code() == 0x87u8,
        SubscribeReasonCode::spec_from_code(0x87u8) == Some(SubscribeReasonCode::NotAuthorized),
        SubscribeReasonCode::TopicFilterInvalid.spec_code() == 0x8Fu8,
        SubscribeReasonCode::spec_from_code(0x8Fu8) == Some(SubscribeReasonCode::TopicFilterInvalid),
        SubscribeReasonCode::PacketIdentifierInUse.spec_code() == 0x91u8,
        SubscribeReasonCode::spec_from_code(0x91u8) == Some(SubscribeReasonCode::PacketIdentifierInUse),
        SubscribeReasonCode::QuotaExceeded.spec_code() == 0x97u8,
        SubscribeReasonCode::spec_from_code(0x97u8) == Some(SubscribeReasonCode::QuotaExceeded),
        SubscribeReasonCode::SharedSubscriptionsNotSupported.spec_code() == 0x9Eu8,
        SubscribeReasonCode::spec_from_code(0x9Eu8) == Some(SubscribeReasonCode::SharedSubscriptionsNotSupported),
        SubscribeReasonCode::SubscriptionIdentifiersNotSupported.spec_code() == 0xA1u8,
        SubscribeReasonCode::spec_from_code(0xA1u8) == Some(SubscribeReasonCode::SubscriptionIdentifiersNotSupported),
        SubscribeReasonCode::WildcardSubscriptionsNotSupported.spec_code() == 0xA2u8,
        SubscribeReasonCode::spec_from_code(0xA2u8) == Some(SubscribeReasonCode::WildcardSubscriptionsNotSupported),
        forall|c: u8| #[trigger] SubscribeReasonCode::spec_from_code(c) is Some <==> (c == 0x00u8 || c == 0x01u8 || c == 0x02u8 || c == 0x80u8 || c == 0x83u8 || c == 0x87u8 || c == 0x8Fu8 || c == 0x91u8 || c == 0x97u8 || c == 0x9Eu8 || c == 0xA1u8 || c == 0xA2u8),
{
}

/// Each code of `DisconnectReasonCode` has the byte that the protocol gives it and is
/// decoded from that byte; no byte outside the table decodes.
///
/// Ref: 3.14.2.1 Disconnect Reason Code
pub proof fn lemma_disconnect_reason_code_bytes()
    ensures
        DisconnectReasonCode::Normal.spec_code() == 0x00u8,
        DisconnectReasonCode::spec_from_code(0x00u8) == Some(DisconnectReasonCode::Normal),
        DisconnectReasonCode::DisconnectWithWillMessage.spec_code() == 0x04u8,
        DisconnectReasonCode::spec_from_code(0x04u8) == Some(DisconnectReasonCode::DisconnectWithWillMessage),
        DisconnectReasonCode::UnspecifiedError.spec_code() == 0x80u8,
        DisconnectReasonCode::spec_from_code(0x80u8) == Some(DisconnectReasonCode::UnspecifiedError),
        DisconnectReasonCode::MalformedPacket.spec_code() == 0x81u8,
        DisconnectReasonCode::spec_from_code(0x81u8) == Some(DisconnectReasonCode::MalformedPacket),
        DisconnectReasonCode::ProtocolError.spec_code() == 0x82u8,
        DisconnectReasonCode::spec_from_code(0x82u8) == Some(DisconnectReasonCode::ProtocolError),
        DisconnectReasonCode::ImplementationSpecificError.spec_code() == 0x83u8,
        DisconnectReasonCode::spec_from_code(0x83u8) == Some(DisconnectReasonCode::ImplementationSpecificError),
        DisconnectReasonCode::NotAuthorized.spec_code() == 0x87u8,
        DisconnectReasonCode::spec_from_code(0x87u8) == Some(DisconnectReasonCode::NotAuthorized),
        DisconnectReasonCode::ServerBusy.spec_code() == 0x89u8,
        DisconnectReasonCode::spec_from_code(0x89u8) == Some(DisconnectReasonCode::ServerBusy),
        DisconnectReasonCode::ServerShuttingDown.spec_code() == 0x8Bu8,
        DisconnectReasonCode::spec_from_code(0x8Bu8) == Some(DisconnectReasonCode::ServerShuttingDown),
        DisconnectReasonCode::KeepAliveTimeout.spec_code() == 0x8Du8,
        DisconnectReasonCode::spec_from_code(0x8Du8) == Some(DisconnectReasonCode::KeepAliveTimeout),
        DisconnectReasonCode::SessionTakenOver.spec_code() == 0x8Eu8,
        DisconnectReasonCode::spec_from_code(0x8Eu8) == Some(DisconnectReasonCode::SessionTakenOver),
        DisconnectReasonCode::TopicFilterInvalid.spec_code() == 0x8Fu8,
        DisconnectReasonCode::spec_from_code(0x8Fu8) == Some(DisconnectReasonCode::TopicFilterInvalid),
        DisconnectReasonCode::TopicNameInvalid.spec_code() == 0x90u8,
        DisconnectReasonCode::spec_from_code(0x90u8) == Some(DisconnectReasonCode::TopicNameInvalid),
        DisconnectReasonCode::ReceiveMaximumExceeded.spec_code() == 0x93u8,
        DisconnectReasonCode::spec_from_code(0x93u8) == Some(DisconnectReasonCode::ReceiveMaximumExceeded),
        DisconnectReasonCode::TopicAliasInvalid.spec_code() == 0x94u8,
        DisconnectReasonCode::spec_from_code(0x94u8) == Some(DisconnectReasonCode::TopicAliasInvalid),
        DisconnectReasonCode::PacketTooLarge.spec_code() == 0x95u8,
        DisconnectReasonCode::spec_from_code(0x95u8) == Some(DisconnectReasonCode::PacketTooLarge),
        DisconnectReasonCode::MessageRateTooHigh.spec_code() == 0x96u8,
        DisconnectReasonCode::spec_from_code(0x96u8) == Some(DisconnectReasonCode::MessageRateTooHigh),
        DisconnectReasonCode::QuotaExceeded.spec_code() == 0x97u8,
        DisconnectReasonCode::spec_from_code(0x97u8) == Some(DisconnectReasonCode::QuotaExceeded),
        DisconnectReasonCode::AdministrativeAction.spec_code() == 0x98u8,
        DisconnectReasonCode::spec_from_code(0x98u8) == Some(DisconnectReasonCode::AdministrativeAction),
        DisconnectReasonCode::PayloadFormatInvalid.spec_code() == 0x99u8,
        DisconnectReasonCode::spec_from_code(0x99u8) == Some(DisconnectReasonCode::PayloadFormatInvalid),
        DisconnectReasonCode::RetainNotSupported.spec_code() == 0x9Au8,
        DisconnectReasonCode::spec_from_code(0x9Au8) == Some(DisconnectReasonCode::RetainNotSupported),
        DisconnectReasonCode::QosNotSupported.spec_code() == 0x9Bu8,
        DisconnectReasonCode::spec_from_code(0x9Bu8) == Some(DisconnectReasonCode::QosNotSupported),
        DisconnectReasonCode::UseAnotherServer.spec_code() == 0x9Cu8,
        DisconnectReasonCode::spec_from_code(0x9Cu8) == Some(DisconnectReasonCode::UseAnotherServer),
        DisconnectReasonCode::ServerMoved.spec_code() == 0x9Du8,
        DisconnectReasonCode::spec_from_code(0x9Du8) == Some(DisconnectReasonCode::ServerMoved),
        DisconnectReasonCode::SharedSubscriptionsNotSupported.spec_code() == 0x9Eu8,
        DisconnectReasonCode::spec_from_code(0x9Eu8) == Some(DisconnectReasonCode::SharedSubscriptionsNotSupported),
        DisconnectReasonCode::ConnectionRateExceeded.spec_code() == 0x9Fu8,
        DisconnectReasonCode::spec_from_code(0x9Fu8) == Some(DisconnectReasonCode::ConnectionRateExceeded),
        DisconnectReasonCode::MaximumConnectTime.spec_code() == 0xA0u8,
        DisconnectReasonCode::spec_from_code(0xA0u8) == Some(DisconnectReasonCode::MaximumConnectTime),
        DisconnectReasonCode::SubscriptionIdentifiersNotSupported.spec_code() == 0xA1u8,
        DisconnectReasonCode::spec_from_code(0xA1u8) == Some(DisconnectReasonCode::SubscriptionIdentifiersNotSupported),
        DisconnectReasonCode::WildcardSubscriptionsNotSupported.spec_code() == 0xA2u8,
        DisconnectReasonCode::spec_from_code(0xA2u8) == Some(DisconnectReasonCode::WildcardSubscriptionsNotSupported),
        forall|c: u8| #[trigger] DisconnectReasonCode::spec_from_code(c) is Some <==> (c == 0x00u8 || c == 0x04u8 || c == 0x80u8 || c == 0x81u8 || c == 0x82u8 || c == 0x83u8 || c == 0x87u8 || c == 0x89u8 || c == 0x8Bu8 || c == 0x8Du8 || c == 0x8Eu8 || c == 0x8Fu8 || c == 0x90u8 || c == 0x93u8 || c == 0x94u8 || c == 0x95u8 || c == 0x96u8 || c == 0x97u8 || c == 0x98u8 || c == 0x99u8 || c == 0x9Au8 || c == 0x9Bu8 || c == 0x9Cu8 || c == 0x9Du8 || c == 0x9Eu8 || c == 0x9Fu8 || c == 0xA0u8 || c == 0xA1u8 || c == 0xA2u8),
{
}

/// Each code of `ConnectionRefusedReason` has the byte that the protocol gives it and is
/// decoded from that byte; no byte outside the table decodes.
///
/// Ref: 3.2.2.2 Connect Reason Code
pub proof fn lemma_connection_refused_reason_bytes()
    ensures
        ConnectionRefusedReason::UnspecifiedError.spec_code() == 0x80u8,
        ConnectionRefusedReason::spec_from_code(0x80u8) == Some(ConnectionRefusedReason::UnspecifiedError),
        ConnectionRefusedReason::MalformedPacket.spec_code() == 0x81u8,
        ConnectionRefusedReason::spec_from_code(0x81u8) == Some(ConnectionRefusedReason::MalformedPacket),
        ConnectionRefusedReason::ProtocolError.spec_code() == 0x82u8,
        ConnectionRefusedReason::spec_from_code(0x82u8) == Some(ConnectionRefusedReason::ProtocolError),
        ConnectionRefusedReason::ImplementationSpecificError.spec_code() == 0x83u8,
        ConnectionRefusedReason::spec_from_code(0x83u8) == Some(ConnectionRefusedReason::ImplementationSpecificError),
        ConnectionRefusedReason::UnsupportedProtocolVersion.spec_code() == 0x84u8,
        ConnectionRefusedReason::spec_from_code(0x84u8) == Some(ConnectionRefusedReason::UnsupportedProtocolVersion),
        ConnectionRefusedReason::ClientIdentifierNotValid.spec_code() == 0x85u8,
        ConnectionRefusedReason::spec_from_code(0x85u8) == Some(ConnectionRefusedReason::ClientIdentifierNotValid),
        ConnectionRefusedReason::BadUserNameOrPassword.spec_code() == 0x86u8,
        ConnectionRefusedReason::spec_from_code(0x86u8) == Some(ConnectionRefusedReason::BadUserNameOrPassword),
        ConnectionRefusedReason::NotAuthorized.spec_code() == 0x87u8,
        ConnectionRefusedReason::spec_from_code(0x87u8) == Some(ConnectionRefusedReason::NotAuthorized),
        ConnectionRefusedReason::ServerUnavailable.spec_code() == 0x88u8,
        ConnectionRefusedReason::spec_from_code(0x88u8) == Some(ConnectionRefusedReason::ServerUnavailable),
        ConnectionRefusedReason::ServerBusy.spec_code() == 0x89u8,
        ConnectionRefusedReason::spec_from_code(0x89u8) == Some(ConnectionRefusedReason::ServerBusy),
        ConnectionRefusedReason::Banned.spec_code() == 0x8Au8,
        ConnectionRefusedReason::spec_from_code(0x8Au8) == Some(ConnectionRefusedReason::Banned),
        ConnectionRefusedReason::BadAuthenticationMethod.spec_code() == 0x8Cu8,
        ConnectionRefusedReason::spec_from_code(0x8Cu8) == Some(ConnectionRefusedReason::BadAuthenticationMethod),
        ConnectionRefusedReason::TopicNameInvalid.spec_code() == 0x90u8,
        ConnectionRefusedReason::spec_from_code(0x90u8) == Some(ConnectionRefusedReason::TopicNameInvalid),
        ConnectionRefusedReason::PacketTooLarge.spec_code() == 0x95u8,
        ConnectionRefusedReason::spec_from_code(0x95u8) == Some(ConnectionRefusedReason::PacketTooLarge),
        ConnectionRefusedReason::QuotaExceeded.spec_code() == 0x97u8,
        ConnectionRefusedReason::spec_from_code(0x97u8) == Some(ConnectionRefusedReason::QuotaExceeded),
        ConnectionRefusedReason::PayloadFormatInvalid.spec_code() == 0x99u8,
        ConnectionRefusedReason::spec_from_code(0x99u8) == Some(ConnectionRefusedReason::PayloadFormatInvalid),
        ConnectionRefusedReason::RetainNotSupported.spec_code() == 0x9Au8,
        ConnectionRefusedReason::spec_from_code(0x9Au8) == Some(ConnectionRefusedReason::RetainNotSupported),
        ConnectionRefusedReason::QoSNotSupported.spec_code() == 0x9Bu8,
        ConnectionRefusedReason::spec_from_code(0x9Bu8) == Some(ConnectionRefusedReason::QoSNotSupported),
        ConnectionRefusedReason::UseAnotherServer.spec_code() == 0x9Cu8,
        ConnectionRefusedReason::spec_from_code(0x9Cu8) == Some(ConnectionRefusedReason::UseAnotherServer),
        ConnectionRefusedReason::ServerMoved.spec_code() == 0x9Du8,
        ConnectionRefusedReason::spec_from_code(0x9Du8) == Some(ConnectionRefusedReason::ServerMoved),
        ConnectionRefusedReason::ConnectionRateExceeded.spec_code() == 0x9Fu8,
        ConnectionRefusedReason::spec_from_code(0x9Fu8) == Some(ConnectionRefusedReason::ConnectionRateExceeded),
        forall|c: u8| #[trigger] ConnectionRefusedReason::spec_from_code(c) is Some <==> (c == 0x80u8 || c == 0x81u8 || c == 0x82u8 || c == 0x83u8 || c == 0x84u8 || c == 0x85u8 || c == 0x86u8 || c == 0x87u8 || c == 0x88u8 || c == 0x89u8 || c == 0x8Au8 || c == 0x8Cu8 || c == 0x90u8 || c == 0x95u8 || c == 0x97u8 || c == 0x99u8 || c == 0x9Au8 || c == 0x9Bu8 || c == 0x9Cu8 || c == 0x9Du8 || c == 0x9Fu8),
{
}

/// A CONNACK reason byte of 0 is success in both versions. In v5 a refusal is decoded from the
/// byte of its refusal reason, and sent as that byte. In v3 the return codes 1 to 5 are the
/// refusals for an unacceptable protocol version, a rejected identifier, an unavailable server,
/// a bad user name or password and a missing authorization, and other bytes do not decode.
///
/// Ref: 3.2.2.2 Connect Reason Code; 3.1.1: 3.2.2.3 Connect Return code
pub proof fn lemma_connect_reason_code_bytes(session_present: bool)
    ensures
        ConnectReasonCode::spec_try_from(0x00u8, session_present, ProtocolVersion::V5) == Ok::<
            ConnectReasonCode,
            DecodeErrorView,
        >(ConnectReasonCode::Success { session_present }),
        ConnectReasonCode::spec_try_from(0x00u8, session_present, ProtocolVersion::V3) == Ok::<
            ConnectReasonCode,
            DecodeErrorView,
        >(ConnectReasonCode::Success { session_present }),
        forall|c: u8, r: ConnectionRefusedReason|
            #![trigger ConnectReasonCode::spec_try_from(c, session_present, ProtocolVersion::V5), ConnectionRefusedReason::spec_from_code(c), r.spec_code()]
            c != 0 && ConnectionRefusedReason::spec_from_code(c) == Some(r) ==> ConnectReasonCode::spec_try_from(c, session_present, ProtocolVersion::V5)
                == Ok::<ConnectReasonCode, DecodeErrorView>(ConnectReasonCode::Refused(r)) && r.spec_code() == c,
        forall|r: ConnectionRefusedReason| #[trigger] ConnectReasonCode::Refused(r).spec_to_u8(ProtocolVersion::V5) == r.spec_code(),
        ConnectReasonCode::spec_try_from(0x01u8, session_present, ProtocolVersion::V3) == Ok::<
            ConnectReasonCode,
            DecodeErrorView,
        >(ConnectReasonCode::Refused(ConnectionRefusedReason::UnsupportedProtocolVersion)),
        ConnectReasonCode::spec_try_from(0x02u8, session_present, ProtocolVersion::V3) == Ok::<
            ConnectReasonCode,
            DecodeErrorView,
        >(ConnectReasonCode::Refused(ConnectionRefusedReason::ClientIdentifierNotValid)),
        ConnectReasonCode::spec_try_from(0x03u8, session_present, ProtocolVersion::V3) == Ok::<
            ConnectReasonCode,
            DecodeErrorView,
        >(ConnectReasonCode::Refused(ConnectionRefusedReason::ServerUnavailable)),
        ConnectReasonCode::spec_try_from(0x04u8, session_present, ProtocolVersion::V3) == Ok::<
            ConnectReasonCode,
            DecodeErrorView,
        >(ConnectReasonCode::Refused(ConnectionRefusedReason::BadUserNameOrPassword)),
        ConnectReasonCode::spec_try_from(0x05u8, session_present, ProtocolVersion::V3) == Ok::<
            ConnectReasonCode,
            DecodeErrorView,
        >(ConnectReasonCode::Refused(ConnectionRefusedReason::NotAuthorized)),
        forall|c: u8| #![trigger ConnectReasonCode::spec_try_from(c, session_present, ProtocolVersion::V3)]
            c > 0x05 ==> ConnectReasonCode::spec_try_from(c, session_present, ProtocolVersion::V3) == Err::<
                ConnectReasonCode,
                DecodeErrorView,
            >(DecodeErrorView::UnrecognizedConnectReturnCode(c)),
        ConnectReasonCode::Refused(ConnectionRefusedReason::UnsupportedProtocolVersion).spec_to_u8(ProtocolVersion::V3) == 0x01u8,
        ConnectReasonCode::Refused(ConnectionRefusedReason::ClientIdentifierNotValid).spec_to_u8(ProtocolVersion::V3) == 0x02u8,
        ConnectReasonCode::Refused(ConnectionRefusedReason::ServerUnavailable).spec_to_u8(ProtocolVersion::V3) == 0x03u8,
        ConnectReasonCode::Refused(ConnectionRefusedReason::BadUserNameOrPassword).spec_to_u8(ProtocolVersion::V3) == 0x04u8,
        ConnectReasonCode::Refused(ConnectionRefusedReason::NotAuthorized).spec_to_u8(ProtocolVersion::V3) == 0x05u8,
{
    assert forall|c: u8, r: ConnectionRefusedReason|
        c != 0 && ConnectionRefusedReason::spec_from_code(c) == Some(r) implies ConnectReasonCode::spec_try_from(c, session_present, ProtocolVersion::V5)
            == Ok::<ConnectReasonCode, DecodeErrorView>(ConnectReasonCode::Refused(r)) && r.spec_code() == c by {
        r.lemma_code_roundtrip(c);
    }
}

/// A v3 SUBACK return code is 0, 1 or 2 for a granted QoS and 0x80 for a failure; in v5 each
/// reason code is its own byte.
///
/// Ref: 3.1.1: 3.9.3 SUBACK Payload
pub proof fn lemma_suback_return_code_bytes()
    ensures
        SubscribeReasonCode::spec_try_from(0x00u8, ProtocolVersion::V3) == Ok::<SubscribeReasonCode, DecodeErrorView>(SubscribeReasonCode::GrantedQoS0),
        SubscribeReasonCode::spec_try_from(0x01u8, ProtocolVersion::V3) == Ok::<SubscribeReasonCode, DecodeErrorView>(SubscribeReasonCode::GrantedQoS1),
        SubscribeReasonCode::spec_try_from(0x02u8, ProtocolVersion::V3) == Ok::<SubscribeReasonCode, DecodeErrorView>(SubscribeReasonCode::GrantedQoS2),
        SubscribeReasonCode::spec_try_from(0x80u8, ProtocolVersion::V3) == Ok::<SubscribeReasonCode, DecodeErrorView>(SubscribeReasonCode::UnspecifiedError),
        SubscribeReasonCode::GrantedQoS0.spec_to_u8(ProtocolVersion::V3) == 0x00u8,
        SubscribeReasonCode::GrantedQoS1.spec_to_u8(ProtocolVersion::V3) == 0x01u8,
        SubscribeReasonCode::GrantedQoS2.spec_to_u8(ProtocolVersion::V3) == 0x02u8,
        forall|r: SubscribeReasonCode| #[trigger] r.spec_to_u8(ProtocolVersion::V3) == (if r.spec_is_success() { r.spec_code() } else { 0x80u8 }),
        forall|r: SubscribeReasonCode| #[trigger] r.spec_to_u8(ProtocolVersion::V5) == r.spec_code(),
{
}

/// A PUBACK, PUBREC or SUBACK code reports success exactly when its byte is below 0x80, as the
/// protocol reserves the bytes from 0x80 up for failures.
///
/// Ref: 2.4 Reason Code
pub proof fn lemma_success_is_below_0x80(a: PubAckReasonCode, r: PubRecReasonCode, s: SubscribeReasonCode)
    ensures
        a.spec_is_success() <==> a.spec_code() < 0x80,
        r.spec_is_success() <==> r.spec_code() < 0x80,
        s.spec_is_success() <==> s.spec_code() < 0x80,
{
}

} // verus!
