//! Single-byte codes of the protocol and their numeric values.
use vstd::prelude::*;

use crate::mqtt_proto::{DecodeError, DecodeErrorView, ProtocolVersion};

verus! {
/// The level of reliability for a publication.
///
/// Ref: 4.3 Quality of Service levels and protocol flows
#[derive(Clone, Copy, Debug, PartialEq, Eq, Structural, PartialOrd, Ord, Hash)]
pub enum QoS {
    AtMostOnce,
    AtLeastOnce,
    ExactlyOnce,
}

impl QoS {
    /// The code with the given numeric value, if there is one.
    pub open spec fn spec_from_code(code: u8) -> Option<QoS> {
        if code == 0x00 {
            Some(QoS::AtMostOnce)
        } else if code == 0x01 {
            Some(QoS::AtLeastOnce)
        } else if code == 0x02 {
            Some(QoS::ExactlyOnce)
        } else {
            None
        }
    }

    /// The numeric value of this code.
    pub open spec fn spec_code(self) -> u8 {
        match self {
            QoS::AtMostOnce => 0x00,
            QoS::AtLeastOnce => 0x01,
            QoS::ExactlyOnce => 0x02,
        }
    }

    /// Converts a numeric value into a code, failing with `UnrecognizedQoS` on unknown values.
    pub fn from_code(code: u8) -> (r: Result<QoS, DecodeError>)
        ensures
            match QoS::spec_from_code(code) {
                Some(c) => r == Ok::<QoS, DecodeError>(c),
                None => r matches Err(e) && e@ == DecodeErrorView::UnrecognizedQoS(code),
            },
    {
        if code == 0x00 {
            Ok(QoS::AtMostOnce)
        } else if code == 0x01 {
            Ok(QoS::AtLeastOnce)
        } else if code == 0x02 {
            Ok(QoS::ExactlyOnce)
        } else {
            Err(DecodeError::UnrecognizedQoS(code))
        }
    }

    /// The numeric value of this code.
    pub fn to_code(self) -> (r: u8)
        ensures
            r == self.spec_code(),
    {
        match self {
            QoS::AtMostOnce => 0x00,
            QoS::AtLeastOnce => 0x01,
            QoS::ExactlyOnce => 0x02,
        }
    }

    /// Every code is recovered from its numeric value, and only from it.
    pub proof fn lemma_code_roundtrip(self, code: u8)
        ensures
            QoS::spec_from_code(self.spec_code()) == Some(self),
            QoS::spec_from_code(code) == Some(self) ==> self.spec_code() == code,
    {
    }
}

/// Ref: 3.8.3.1 Subscription Options
#[derive(Clone, Copy, Debug, PartialEq, Eq, Structural, PartialOrd, Ord, Hash)]
pub enum RetainHandling {
    Send,
    SendOnlyIfSubscriptionDoesNotCurrentlyExist,
    DoNotSend,
}

impl RetainHandling {
    /// The code with the given numeric value, if there is one.
    pub open spec fn spec_from_code(code: u8) -> Option<RetainHandling> {
        if code == 0x00 {
            Some(RetainHandling::Send)
        } else if code == 0x01 {
            Some(RetainHandling::SendOnlyIfSubscriptionDoesNotCurrentlyExist)
        } else if code == 0x02 {
            Some(RetainHandling::DoNotSend)
        } else {
            None
        }
    }

    /// The numeric value of this code.
    pub open spec fn spec_code(self) -> u8 {
        match self {
            RetainHandling::Send => 0x00,
            RetainHandling::SendOnlyIfSubscriptionDoesNotCurrentlyExist => 0x01,
            RetainHandling::DoNotSend => 0x02,
        }
    }

    /// Converts a numeric value into a code, failing with `UnrecognizedRetainHandling` on unknown values.
    pub fn from_code(code: u8) -> (r: Result<RetainHandling, DecodeError>)
        ensures
            match RetainHandling::spec_from_code(code) {
                Some(c) => r == Ok::<RetainHandling, DecodeError>(c),
                None => r matches Err(e) && e@ == DecodeErrorView::UnrecognizedRetainHandling(code),
            },
    {
        if code == 0x00 {
            Ok(RetainHandling::Send)
        } else if code == 0x01 {
            Ok(RetainHandling::SendOnlyIfSubscriptionDoesNotCurrentlyExist)
        } else if code == 0x02 {
            Ok(RetainHandling::DoNotSend)
        } else {
            Err(DecodeError::UnrecognizedRetainHandling(code))
        }
    }

    /// The numeric value of this code.
    pub fn to_code(self) -> (r: u8)
        ensures
            r == self.spec_code(),
    {
        match self {
            RetainHandling::Send => 0x00,
            RetainHandling::SendOnlyIfSubscriptionDoesNotCurrentlyExist => 0x01,
            RetainHandling::DoNotSend => 0x02,
        }
    }

    /// Every code is recovered from its numeric value, and only from it.
    pub proof fn lemma_code_roundtrip(self, code: u8)
        ensures
            RetainHandling::spec_from_code(self.spec_code()) == Some(self),
            RetainHandling::spec_from_code(code) == Some(self) ==> self.spec_code() == code,
    {
    }
}

/// Ref: 3.15.2.1 Authenticate Reason Code
#[derive(Clone, Copy, Debug, PartialEq, Eq, Structural, PartialOrd, Ord, Hash)]
pub enum AuthenticateReasonCode {
    Success,
    ContinueAuthentication,
    ReAuthenticate,
}

impl AuthenticateReasonCode {
    /// The code with the given numeric value, if there is one.
    pub open spec fn spec_from_code(code: u8) -> Option<AuthenticateReasonCode> {
        if code == 0x00 {
            Some(AuthenticateReasonCode::Success)
        } else if code == 0x18 {
            Some(AuthenticateReasonCode::ContinueAuthentication)
        } else if code == 0x19 {
            Some(AuthenticateReasonCode::ReAuthenticate)
        } else {
            None
        }
    }

    /// The numeric value of this code.
    pub open spec fn spec_code(self) -> u8 {
        match self {
            AuthenticateReasonCode::Success => 0x00,
            AuthenticateReasonCode::ContinueAuthentication => 0x18,
            AuthenticateReasonCode::ReAuthenticate => 0x19,
        }
    }

    /// Converts a numeric value into a code, failing with `UnrecognizedAuthenticateReasonCode` on unknown values.
    pub fn from_code(code: u8) -> (r: Result<AuthenticateReasonCode, DecodeError>)
        ensures
            match AuthenticateReasonCode::spec_from_code(code) {
                Some(c) => r == Ok::<AuthenticateReasonCode, DecodeError>(c),
                None => r matches Err(e) && e@ == DecodeErrorView::UnrecognizedAuthenticateReasonCode(code),
            },
    {
        if code == 0x00 {
            Ok(AuthenticateReasonCode::Success)
        } else if code == 0x18 {
            Ok(AuthenticateReasonCode::ContinueAuthentication)
        } else if code == 0x19 {
            Ok(AuthenticateReasonCode::ReAuthenticate)
        } else {
            Err(DecodeError::UnrecognizedAuthenticateReasonCode(code))
        }
    }

    /// The numeric value of this code.
    pub fn to_code(self) -> (r: u8)
        ensures
            r == self.spec_code(),
    {
        match self {
            AuthenticateReasonCode::Success => 0x00,
            AuthenticateReasonCode::ContinueAuthentication => 0x18,
            AuthenticateReasonCode::ReAuthenticate => 0x19,
        }
    }

    /// Every code is recovered from its numeric value, and only from it.
    pub proof fn lemma_code_roundtrip(self, code: u8)
        ensures
            AuthenticateReasonCode::spec_from_code(self.spec_code()) == Some(self),
            AuthenticateReasonCode::spec_from_code(code) == Some(self) ==> self.spec_code() == code,
    {
    }
}

/// Ref: 3.4.2.1 PUBACK Reason Code
#[derive(Clone, Copy, Debug, PartialEq, Eq, Structural, PartialOrd, Ord, Hash)]
pub enum PubAckReasonCode {
    Success,
    NoMatchingSubscribers,
    UnspecifiedError,
    ImplementationSpecificError,
    NotAuthorized,
    TopicNameInvalid,
    PacketIdentifierInUse,
    QuotaExceeded,
    PayloadFormatInvalid,
}

impl PubAckReasonCode {
    /// The code with the given numeric value, if there is one.
    pub open spec fn spec_from_code(code: u8) -> Option<PubAckReasonCode> {
        if code == 0x00 {
            Some(PubAckReasonCode::Success)
        } else if code == 0x10 {
            Some(PubAckReasonCode::NoMatchingSubscribers)
        } else if code == 0x80 {
            Some(PubAckReasonCode::UnspecifiedError)
        } else if code == 0x83 {
            Some(PubAckReasonCode::ImplementationSpecificError)
        } else if code == 0x87 {
            Some(PubAckReasonCode::NotAuthorized)
        } else if code == 0x90 {
            Some(PubAckReasonCode::TopicNameInvalid)
        } else if code == 0x91 {
            Some(PubAckReasonCode::PacketIdentifierInUse)
        } else if code == 0x97 {
            Some(PubAckReasonCode::QuotaExceeded)
        } else if code == 0x99 {
            Some(PubAckReasonCode::PayloadFormatInvalid)
        } else {
            None
        }
    }

    /// The numeric value of this code.
    pub open spec fn spec_code(self) -> u8 {
        match self {
            PubAckReasonCode::Success => 0x00,
            PubAckReasonCode::NoMatchingSubscribers => 0x10,
            PubAckReasonCode::UnspecifiedError => 0x80,
            PubAckReasonCode::ImplementationSpecificError => 0x83,
            PubAckReasonCode::NotAuthorized => 0x87,
            PubAckReasonCode::TopicNameInvalid => 0x90,
            PubAckReasonCode::PacketIdentifierInUse => 0x91,
            PubAckReasonCode::QuotaExceeded => 0x97,
            PubAckReasonCode::PayloadFormatInvalid => 0x99,
        }
    }

    /// Converts a numeric value into a code, failing with `UnrecognizedPubAckReasonCode` on unknown values.
    pub fn from_code(code: u8) -> (r: Result<PubAckReasonCode, DecodeError>)
        ensures
            match PubAckReasonCode::spec_from_code(code) {
                Some(c) => r == Ok::<PubAckReasonCode, DecodeError>(c),
                None => r matches Err(e) && e@ == DecodeErrorView::UnrecognizedPubAckReasonCode(code),
            },
    {
        if code == 0x00 {
            Ok(PubAckReasonCode::Success)
        } else if code == 0x10 {
            Ok(PubAckReasonCode::NoMatchingSubscribers)
        } else if code == 0x80 {
            Ok(PubAckReasonCode::UnspecifiedError)
        } else if code == 0x83 {
            Ok(PubAckReasonCode::ImplementationSpecificError)
        } else if code == 0x87 {
            Ok(PubAckReasonCode::NotAuthorized)
        } else if code == 0x90 {
            Ok(PubAckReasonCode::TopicNameInvalid)
        } else if code == 0x91 {
            Ok(PubAckReasonCode::PacketIdentifierInUse)
        } else if code == 0x97 {
            Ok(PubAckReasonCode::QuotaExceeded)
        } else if code == 0x99 {
            Ok(PubAckReasonCode::PayloadFormatInvalid)
        } else {
            Err(DecodeError::UnrecognizedPubAckReasonCode(code))
        }
    }

    /// The numeric value of this code.
    pub fn to_code(self) -> (r: u8)
        ensures
            r == self.spec_code(),
    {
        match self {
            PubAckReasonCode::Success => 0x00,
            PubAckReasonCode::NoMatchingSubscribers => 0x10,
            PubAckReasonCode::UnspecifiedError => 0x80,
            PubAckReasonCode::ImplementationSpecificError => 0x83,
            PubAckReasonCode::NotAuthorized => 0x87,
            PubAckReasonCode::TopicNameInvalid => 0x90,
            PubAckReasonCode::PacketIdentifierInUse => 0x91,
            PubAckReasonCode::QuotaExceeded => 0x97,
            PubAckReasonCode::PayloadFormatInvalid => 0x99,
        }
    }

    /// Every code is recovered from its numeric value, and only from it.
    pub proof fn lemma_code_roundtrip(self, code: u8)
        ensures
            PubAckReasonCode::spec_from_code(self.spec_code()) == Some(self),
            PubAckReasonCode::spec_from_code(code) == Some(self) ==> self.spec_code() == code,
    {
    }
}

/// Ref: 3.7.2.1 PUBCOMP Reason Code
#[derive(Clone, Copy, Debug, PartialEq, Eq, Structural, PartialOrd, Ord, Hash)]
pub enum PubCompReasonCode {
    Success,
    PacketIdentifierNotFound,
}

impl PubCompReasonCode {
    /// The code with the given numeric value, if there is one.
    pub open spec fn spec_from_code(code: u8) -> Option<PubCompReasonCode> {
        if code == 0x00 {
            Some(PubCompReasonCode::Success)
        } else if code == 0x92 {
            Some(PubCompReasonCode::PacketIdentifierNotFound)
        } else {
            None
        }
    }

    /// The numeric value of this code.
    pub open spec fn spec_code(self) -> u8 {
        match self {
            PubCompReasonCode::Success => 0x00,
            PubCompReasonCode::PacketIdentifierNotFound => 0x92,
        }
    }

    /// Converts a numeric value into a code, failing with `UnrecognizedPubCompReasonCode` on unknown values.
    pub fn from_code(code: u8) -> (r: Result<PubCompReasonCode, DecodeError>)
        ensures
            match PubCompReasonCode::spec_from_code(code) {
                Some(c) => r == Ok::<PubCompReasonCode, DecodeError>(c),
                None => r matches Err(e) && e@ == DecodeErrorView::UnrecognizedPubCompReasonCode(code),
            },
    {
        if code == 0x00 {
            Ok(PubCompReasonCode::Success)
        } else if code == 0x92 {
            Ok(PubCompReasonCode::PacketIdentifierNotFound)
        } else {
            Err(DecodeError::UnrecognizedPubCompReasonCode(code))
        }
    }

    /// The numeric value of this code.
    pub fn to_code(self) -> (r: u8)
        ensures
            r == self.spec_code(),
    {
        match self {
            PubCompReasonCode::Success => 0x00,
            PubCompReasonCode::PacketIdentifierNotFound => 0x92,
        }
    }

    /// Every code is recovered from its numeric value, and only from it.
    pub proof fn lemma_code_roundtrip(self, code: u8)
        ensures
            PubCompReasonCode::spec_from_code(self.spec_code()) == Some(self),
            PubCompReasonCode::spec_from_code(code) == Some(self) ==> self.spec_code() == code,
    {
    }
}

/// Ref: 3.5.2.1 PUBREC Reason Code
#[derive(Clone, Copy, Debug, PartialEq, Eq, Structural, PartialOrd, Ord, Hash)]
pub enum PubRecReasonCode {
    Success,
    NoMatchingSubscribers,
    UnspecifiedError,
    ImplementationSpecificError,
    NotAuthorized,
    TopicNameInvalid,
    PacketIdentifierInUse,
    QuotaExceeded,
    PayloadFormatInvalid,
}

impl PubRecReasonCode {
    /// The code with the given numeric value, if there is one.
    pub open spec fn spec_from_code(code: u8) -> Option<PubRecReasonCode> {
        if code == 0x00 {
            Some(PubRecReasonCode::Success)
        } else if code == 0x10 {
            Some(PubRecReasonCode::NoMatchingSubscribers)
        } else if code == 0x80 {
            Some(PubRecReasonCode::UnspecifiedError)
        } else if code == 0x83 {
            Some(PubRecReasonCode::ImplementationSpecificError)
        } else if code == 0x87 {
            Some(PubRecReasonCode::NotAuthorized)
        } else if code == 0x90 {
            Some(PubRecReasonCode::TopicNameInvalid)
        } else if code == 0x91 {
            Some(PubRecReasonCode::PacketIdentifierInUse)
        } else if code == 0x97 {
            Some(PubRecReasonCode::QuotaExceeded)
        } else if code == 0x99 {
            Some(PubRecReasonCode::PayloadFormatInvalid)
        } else {
            None
        }
    }

    /// The numeric value of this code.
    pub open spec fn spec_code(self) -> u8 {
        match self {
            PubRecReasonCode::Success => 0x00,
            PubRecReasonCode::NoMatchingSubscribers => 0x10,
            PubRecReasonCode::UnspecifiedError => 0x80,
            PubRecReasonCode::ImplementationSpecificError => 0x83,
            PubRecReasonCode::NotAuthorized => 0x87,
            PubRecReasonCode::TopicNameInvalid => 0x90,
            PubRecReasonCode::PacketIdentifierInUse => 0x91,
            PubRecReasonCode::QuotaExceeded => 0x97,
            PubRecReasonCode::PayloadFormatInvalid => 0x99,
        }
    }

    /// Converts a numeric value into a code, failing with `UnrecognizedPubRecReasonCode` on unknown values.
    pub fn from_code(code: u8) -> (r: Result<PubRecReasonCode, DecodeError>)
        ensures
            match PubRecReasonCode::spec_from_code(code) {
                Some(c) => r == Ok::<PubRecReasonCode, DecodeError>(c),
                None => r matches Err(e) && e@ == DecodeErrorView::UnrecognizedPubRecReasonCode(code),
            },
    {
        if code == 0x00 {
            Ok(PubRecReasonCode::Success)
        } else if code == 0x10 {
            Ok(PubRecReasonCode::NoMatchingSubscribers)
        } else if code == 0x80 {
            Ok(PubRecReasonCode::UnspecifiedError)
        } else if code == 0x83 {
            Ok(PubRecReasonCode::ImplementationSpecificError)
        } else if code == 0x87 {
            Ok(PubRecReasonCode::NotAuthorized)
        } else if code == 0x90 {
            Ok(PubRecReasonCode::TopicNameInvalid)
        } else if code == 0x91 {
            Ok(PubRecReasonCode::PacketIdentifierInUse)
        } else if code == 0x97 {
            Ok(PubRecReasonCode::QuotaExceeded)
        } else if code == 0x99 {
            Ok(PubRecReasonCode::PayloadFormatInvalid)
        } else {
            Err(DecodeError::UnrecognizedPubRecReasonCode(code))
        }
    }

    /// The numeric value of this code.
    pub fn to_code(self) -> (r: u8)
        ensures
            r == self.spec_code(),
    {
        match self {
            PubRecReasonCode::Success => 0x00,
            PubRecReasonCode::NoMatchingSubscribers => 0x10,
            PubRecReasonCode::UnspecifiedError => 0x80,
            PubRecReasonCode::ImplementationSpecificError => 0x83,
            PubRecReasonCode::NotAuthorized => 0x87,
            PubRecReasonCode::TopicNameInvalid => 0x90,
            PubRecReasonCode::PacketIdentifierInUse => 0x91,
            PubRecReasonCode::QuotaExceeded => 0x97,
            PubRecReasonCode::PayloadFormatInvalid => 0x99,
        }
    }

    /// Every code is recovered from its numeric value, and only from it.
    pub proof fn lemma_code_roundtrip(self, code: u8)
        ensures
            PubRecReasonCode::spec_from_code(self.spec_code()) == Some(self),
            PubRecReasonCode::spec_from_code(code) == Some(self) ==> self.spec_code() == code,
    {
    }
}

/// Ref: 3.6.2.1 PUBREL Reason Code
#[derive(Clone, Copy, Debug, PartialEq, Eq, Structural, PartialOrd, Ord, Hash)]
pub enum PubRelReasonCode {
    Success,
    PacketIdentifierNotFound,
}

impl PubRelReasonCode {
    /// The code with the given numeric value, if there is one.
    pub open spec fn spec_from_code(code: u8) -> Option<PubRelReasonCode> {
        if code == 0x00 {
            Some(PubRelReasonCode::Success)
        } else if code == 0x92 {
            Some(PubRelReasonCode::PacketIdentifierNotFound)
        } else {
            None
        }
    }

    /// The numeric value of this code.
    pub open spec fn spec_code(self) -> u8 {
        match self {
            PubRelReasonCode::Success => 0x00,
            PubRelReasonCode::PacketIdentifierNotFound => 0x92,
        }
    }

    /// Converts a numeric value into a code, failing with `UnrecognizedPubRelReasonCode` on unknown values.
    pub fn from_code(code: u8) -> (r: Result<PubRelReasonCode, DecodeError>)
        ensures
            match PubRelReasonCode::spec_from_code(code) {
                Some(c) => r == Ok::<PubRelReasonCode, DecodeError>(c),
                None => r matches Err(e) && e@ == DecodeErrorView::UnrecognizedPubRelReasonCode(code),
            },
    {
        if code == 0x00 {
            Ok(PubRelReasonCode::Success)
        } else if code == 0x92 {
            Ok(PubRelReasonCode::PacketIdentifierNotFound)
        } else {
            Err(DecodeError::UnrecognizedPubRelReasonCode(code))
        }
    }

    /// The numeric value of this code.
    pub fn to_code(self) -> (r: u8)
        ensures
            r == self.spec_code(),
    {
        match self {
            PubRelReasonCode::Success => 0x00,
            PubRelReasonCode::PacketIdentifierNotFound => 0x92,
        }
    }

    /// Every code is recovered from its numeric value, and only from it.
    pub proof fn lemma_code_roundtrip(self, code: u8)
        ensures
            PubRelReasonCode::spec_from_code(self.spec_code()) == Some(self),
            PubRelReasonCode::spec_from_code(code) == Some(self) ==> self.spec_code() == code,
    {
    }
}

/// Ref: 3.11.3 UNSUBACK Payload
#[derive(Clone, Copy, Debug, PartialEq, Eq, Structural, PartialOrd, Ord, Hash)]
pub enum UnsubAckReasonCode {
    Success,
    NoSubscriptionExisted,
    UnspecifiedError,
    ImplementationSpecificError,
    NotAuthorized,
    TopicFilterInvalid,
    PacketIdentifierInUse,
}

impl UnsubAckReasonCode {
    /// The code with the given numeric value, if there is one.
    pub open spec fn spec_from_code(code: u8) -> Option<UnsubAckReasonCode> {
        if code == 0x00 {
            Some(UnsubAckReasonCode::Success)
        } else if code == 0x11 {
            Some(UnsubAckReasonCode::NoSubscriptionExisted)
        } else if code == 0x80 {
            Some(UnsubAckReasonCode::UnspecifiedError)
        } else if code == 0x83 {
            Some(UnsubAckReasonCode::ImplementationSpecificError)
        } else if code == 0x87 {
            Some(UnsubAckReasonCode::NotAuthorized)
        } else if code == 0x8F {
            Some(UnsubAckReasonCode::TopicFilterInvalid)
        } else if code == 0x91 {
            Some(UnsubAckReasonCode::PacketIdentifierInUse)
        } else {
            None
        }
    }

    /// The numeric value of this code.
    pub open spec fn spec_code(self) -> u8 {
        match self {
            UnsubAckReasonCode::Success => 0x00,
            UnsubAckReasonCode::NoSubscriptionExisted => 0x11,
            UnsubAckReasonCode::UnspecifiedError => 0x80,
            UnsubAckReasonCode::ImplementationSpecificError => 0x83,
            UnsubAckReasonCode::NotAuthorized => 0x87,
            UnsubAckReasonCode::TopicFilterInvalid => 0x8F,
            UnsubAckReasonCode::PacketIdentifierInUse => 0x91,
        }
    }

    /// Converts a numeric value into a code, failing with `UnrecognizedUnsubAckReasonCode` on unknown values.
    pub fn from_code(code: u8) -> (r: Result<UnsubAckReasonCode, DecodeError>)
        ensures
            match UnsubAckReasonCode::spec_from_code(code) {
                Some(c) => r == Ok::<UnsubAckReasonCode, DecodeError>(c),
                None => r matches Err(e) && e@ == DecodeErrorView::UnrecognizedUnsubAckReasonCode(code),
            },
    {
        if code == 0x00 {
            Ok(UnsubAckReasonCode::Success)
        } else if code == 0x11 {
            Ok(UnsubAckReasonCode::NoSubscriptionExisted)
        } else if code == 0x80 {
            Ok(UnsubAckReasonCode::UnspecifiedError)
        } else if code == 0x83 {
            Ok(UnsubAckReasonCode::ImplementationSpecificError)
        } else if code == 0x87 {
            Ok(UnsubAckReasonCode::NotAuthorized)
        } else if code == 0x8F {
            Ok(UnsubAckReasonCode::TopicFilterInvalid)
        } else if code == 0x91 {
            Ok(UnsubAckReasonCode::PacketIdentifierInUse)
        } else {
            Err(DecodeError::UnrecognizedUnsubAckReasonCode(code))
        }
    }

    /// The numeric value of this code.
    pub fn to_code(self) -> (r: u8)
        ensures
            r == self.spec_code(),
    {
        match self {
            UnsubAckReasonCode::Success => 0x00,
            UnsubAckReasonCode::NoSubscriptionExisted => 0x11,
            UnsubAckReasonCode::UnspecifiedError => 0x80,
            UnsubAckReasonCode::ImplementationSpecificError => 0x83,
            UnsubAckReasonCode::NotAuthorized => 0x87,
            UnsubAckReasonCode::TopicFilterInvalid => 0x8F,
            UnsubAckReasonCode::PacketIdentifierInUse => 0x91,
        }
    }

    /// Every code is recovered from its numeric value, and only from it.
    pub proof fn lemma_code_roundtrip(self, code: u8)
        ensures
            UnsubAckReasonCode::spec_from_code(self.spec_code()) == Some(self),
            UnsubAckReasonCode::spec_from_code(code) == Some(self) ==> self.spec_code() == code,
    {
    }
}

/// Ref: 3.9.3 SUBACK Payload
#[derive(Clone, Copy, Debug, PartialEq, Eq, Structural, PartialOrd, Ord, Hash)]
pub enum SubscribeReasonCode {
    GrantedQoS0,
    GrantedQoS1,
    GrantedQoS2,
    UnspecifiedError,
    ImplementationSpecificError,
    NotAuthorized,
    TopicFilterInvalid,
    PacketIdentifierInUse,
    QuotaExceeded,
    SharedSubscriptionsNotSupported,
    SubscriptionIdentifiersNotSupported,
    WildcardSubscriptionsNotSupported,
}

impl SubscribeReasonCode {
    /// The code with the given numeric value, if there is one.
    pub open spec fn spec_from_code(code: u8) -> Option<SubscribeReasonCode> {
        if code == 0x00 {
            Some(SubscribeReasonCode::GrantedQoS0)
        } else if code == 0x01 {
            Some(SubscribeReasonCode::GrantedQoS1)
        } else if code == 0x02 {
            Some(SubscribeReasonCode::GrantedQoS2)
        } else if code == 0x80 {
            Some(SubscribeReasonCode::UnspecifiedError)
        } else if code == 0x83 {
            Some(SubscribeReasonCode::ImplementationSpecificError)
        } else if code == 0x87 {
            Some(SubscribeReasonCode::NotAuthorized)
        } else if code == 0x8F {
            Some(SubscribeReasonCode::TopicFilterInvalid)
        } else if code == 0x91 {
            Some(SubscribeReasonCode::PacketIdentifierInUse)
        } else if code == 0x97 {
            Some(SubscribeReasonCode::QuotaExceeded)
        } else if code == 0x9E {
            Some(SubscribeReasonCode::SharedSubscriptionsNotSupported)
        } else if code == 0xA1 {
            Some(SubscribeReasonCode::SubscriptionIdentifiersNotSupported)
        } else if code == 0xA2 {
            Some(SubscribeReasonCode::WildcardSubscriptionsNotSupported)
        } else {
            None
        }
    }

    /// The numeric value of this code.
    pub open spec fn spec_code(self) -> u8 {
        match self {
            SubscribeReasonCode::GrantedQoS0 => 0x00,
            SubscribeReasonCode::GrantedQoS1 => 0x01,
            SubscribeReasonCode::GrantedQoS2 => 0x02,
            SubscribeReasonCode::UnspecifiedError => 0x80,
            SubscribeReasonCode::ImplementationSpecificError => 0x83,
            SubscribeReasonCode::NotAuthorized => 0x87,
            SubscribeReasonCode::TopicFilterInvalid => 0x8F,
            SubscribeReasonCode::PacketIdentifierInUse => 0x91,
            SubscribeReasonCode::QuotaExceeded => 0x97,
            SubscribeReasonCode::SharedSubscriptionsNotSupported => 0x9E,
            SubscribeReasonCode::SubscriptionIdentifiersNotSupported => 0xA1,
            SubscribeReasonCode::WildcardSubscriptionsNotSupported => 0xA2,
        }
    }

    /// Converts a numeric value into a code, failing with `UnrecognizedSubscribeReasonCode` on unknown values.
    pub fn from_code(code: u8) -> (r: Result<SubscribeReasonCode, DecodeError>)
        ensures
            match SubscribeReasonCode::spec_from_code(code) {
                Some(c) => r == Ok::<SubscribeReasonCode, DecodeError>(c),
                None => r matches Err(e) && e@ == DecodeErrorView::UnrecognizedSubscribeReasonCode(code),
            },
    {
        if code == 0x00 {
            Ok(SubscribeReasonCode::GrantedQoS0)
        } else if code == 0x01 {
            Ok(SubscribeReasonCode::GrantedQoS1)
        } else if code == 0x02 {
            Ok(SubscribeReasonCode::GrantedQoS2)
        } else if code == 0x80 {
            Ok(SubscribeReasonCode::UnspecifiedError)
        } else if code == 0x83 {
            Ok(SubscribeReasonCode::ImplementationSpecificError)
        } else if code == 0x87 {
            Ok(SubscribeReasonCode::NotAuthorized)
        } else if code == 0x8F {
            Ok(SubscribeReasonCode::TopicFilterInvalid)
        } else if code == 0x91 {
            Ok(SubscribeReasonCode::PacketIdentifierInUse)
        } else if code == 0x97 {
            Ok(SubscribeReasonCode::QuotaExceeded)
        } else if code == 0x9E {
            Ok(SubscribeReasonCode::SharedSubscriptionsNotSupported)
        } else if code == 0xA1 {
            Ok(SubscribeReasonCode::SubscriptionIdentifiersNotSupported)
        } else if code == 0xA2 {
            Ok(SubscribeReasonCode::WildcardSubscriptionsNotSupported)
        } else {
            Err(DecodeError::UnrecognizedSubscribeReasonCode(code))
        }
    }

    /// The numeric value of this code.
    pub fn to_code(self) -> (r: u8)
        ensures
            r == self.spec_code(),
    {
        match self {
            SubscribeReasonCode::GrantedQoS0 => 0x00,
            SubscribeReasonCode::GrantedQoS1 => 0x01,
            SubscribeReasonCode::GrantedQoS2 => 0x02,
            SubscribeReasonCode::UnspecifiedError => 0x80,
            SubscribeReasonCode::ImplementationSpecificError => 0x83,
            SubscribeReasonCode::NotAuthorized => 0x87,
            SubscribeReasonCode::TopicFilterInvalid => 0x8F,
            SubscribeReasonCode::PacketIdentifierInUse => 0x91,
            SubscribeReasonCode::QuotaExceeded => 0x97,
            SubscribeReasonCode::SharedSubscriptionsNotSupported => 0x9E,
            SubscribeReasonCode::SubscriptionIdentifiersNotSupported => 0xA1,
            SubscribeReasonCode::WildcardSubscriptionsNotSupported => 0xA2,
        }
    }

    /// Every code is recovered from its numeric value, and only from it.
    pub proof fn lemma_code_roundtrip(self, code: u8)
        ensures
            SubscribeReasonCode::spec_from_code(self.spec_code()) == Some(self),
            SubscribeReasonCode::spec_from_code(code) == Some(self) ==> self.spec_code() == code,
    {
    }
}

/// Ref: 3.14.2.1 Disconnect Reason Code
#[derive(Clone, Copy, Debug, PartialEq, Eq, Structural, PartialOrd, Ord, Hash)]
pub enum DisconnectReasonCode {
    Normal,
    DisconnectWithWillMessage,
    UnspecifiedError,
    MalformedPacket,
    ProtocolError,
    ImplementationSpecificError,
    NotAuthorized,
    ServerBusy,
    ServerShuttingDown,
    KeepAliveTimeout,
    SessionTakenOver,
    TopicFilterInvalid,
    TopicNameInvalid,
    ReceiveMaximumExceeded,
    TopicAliasInvalid,
    PacketTooLarge,
    MessageRateTooHigh,
    QuotaExceeded,
    AdministrativeAction,
    PayloadFormatInvalid,
    RetainNotSupported,
    QosNotSupported,
    UseAnotherServer,
    ServerMoved,
    SharedSubscriptionsNotSupported,
    ConnectionRateExceeded,
    MaximumConnectTime,
    SubscriptionIdentifiersNotSupported,
    WildcardSubscriptionsNotSupported,
}

impl DisconnectReasonCode {
    /// The code with the given numeric value, if there is one.
    pub open spec fn spec_from_code(code: u8) -> Option<DisconnectReasonCode> {
        if code == 0x00 {
            Some(DisconnectReasonCode::Normal)
        } else if code == 0x04 {
            Some(DisconnectReasonCode::DisconnectWithWillMessage)
        } else if code == 0x80 {
            Some(DisconnectReasonCode::UnspecifiedError)
        } else if code == 0x81 {
            Some(DisconnectReasonCode::MalformedPacket)
        } else if code == 0x82 {
            Some(DisconnectReasonCode::ProtocolError)
        } else if code == 0x83 {
            Some(DisconnectReasonCode::ImplementationSpecificError)
        } else if code == 0x87 {
            Some(DisconnectReasonCode::NotAuthorized)
        } else if code == 0x89 {
            Some(DisconnectReasonCode::ServerBusy)
        } else if code == 0x8B {
            Some(DisconnectReasonCode::ServerShuttingDown)
        } else if code == 0x8D {
            Some(DisconnectReasonCode::KeepAliveTimeout)
        } else if code == 0x8E {
            Some(DisconnectReasonCode::SessionTakenOver)
        } else if code == 0x8F {
            Some(DisconnectReasonCode::TopicFilterInvalid)
        } else if code == 0x90 {
            Some(DisconnectReasonCode::TopicNameInvalid)
        } else if code == 0x93 {
            Some(DisconnectReasonCode::ReceiveMaximumExceeded)
        } else if code == 0x94 {
            Some(DisconnectReasonCode::TopicAliasInvalid)
        } else if code == 0x95 {
            Some(DisconnectReasonCode::PacketTooLarge)
        } else if code == 0x96 {
            Some(DisconnectReasonCode::MessageRateTooHigh)
        } else if code == 0x97 {
            Some(DisconnectReasonCode::QuotaExceeded)
        } else if code == 0x98 {
            Some(DisconnectReasonCode::AdministrativeAction)
        } else if code == 0x99 {
            Some(DisconnectReasonCode::PayloadFormatInvalid)
        } else if code == 0x9A {
            Some(DisconnectReasonCode::RetainNotSupported)
        } else if code == 0x9B {
            Some(DisconnectReasonCode::QosNotSupported)
        } else if code == 0x9C {
            Some(DisconnectReasonCode::UseAnotherServer)
        } else if code == 0x9D {
            Some(DisconnectReasonCode::ServerMoved)
        } else if code == 0x9E {
            Some(DisconnectReasonCode::SharedSubscriptionsNotSupported)
        } else if code == 0x9F {
            Some(DisconnectReasonCode::ConnectionRateExceeded)
        } else if code == 0xA0 {
            Some(DisconnectReasonCode::MaximumConnectTime)
        } else if code == 0xA1 {
            Some(DisconnectReasonCode::SubscriptionIdentifiersNotSupported)
        } else if code == 0xA2 {
            Some(DisconnectReasonCode::WildcardSubscriptionsNotSupported)
        } else {
            None
        }
    }

    /// The numeric value of this code.
    pub open spec fn spec_code(self) -> u8 {
        match self {
            DisconnectReasonCode::Normal => 0x00,
            DisconnectReasonCode::DisconnectWithWillMessage => 0x04,
            DisconnectReasonCode::UnspecifiedError => 0x80,
            DisconnectReasonCode::MalformedPacket => 0x81,
            DisconnectReasonCode::ProtocolError => 0x82,
            DisconnectReasonCode::ImplementationSpecificError => 0x83,
            DisconnectReasonCode::NotAuthorized => 0x87,
            DisconnectReasonCode::ServerBusy => 0x89,
            DisconnectReasonCode::ServerShuttingDown => 0x8B,
            DisconnectReasonCode::KeepAliveTimeout => 0x8D,
            DisconnectReasonCode::SessionTakenOver => 0x8E,
            DisconnectReasonCode::TopicFilterInvalid => 0x8F,
            DisconnectReasonCode::TopicNameInvalid => 0x90,
            DisconnectReasonCode::ReceiveMaximumExceeded => 0x93,
            DisconnectReasonCode::TopicAliasInvalid => 0x94,
            DisconnectReasonCode::PacketTooLarge => 0x95,
            DisconnectReasonCode::MessageRateTooHigh => 0x96,
            DisconnectReasonCode::QuotaExceeded => 0x97,
            DisconnectReasonCode::AdministrativeAction => 0x98,
            DisconnectReasonCode::PayloadFormatInvalid => 0x99,
            DisconnectReasonCode::RetainNotSupported => 0x9A,
            DisconnectReasonCode::QosNotSupported => 0x9B,
            DisconnectReasonCode::UseAnotherServer => 0x9C,
            DisconnectReasonCode::ServerMoved => 0x9D,
            DisconnectReasonCode::SharedSubscriptionsNotSupported => 0x9E,
            DisconnectReasonCode::ConnectionRateExceeded => 0x9F,
            DisconnectReasonCode::MaximumConnectTime => 0xA0,
            DisconnectReasonCode::SubscriptionIdentifiersNotSupported => 0xA1,
            DisconnectReasonCode::WildcardSubscriptionsNotSupported => 0xA2,
        }
    }

    /// Converts a numeric value into a code, failing with `UnrecognizedDisconnectReasonCode` on unknown values.
    pub fn from_code(code: u8) -> (r: Result<DisconnectReasonCode, DecodeError>)
        ensures
            match DisconnectReasonCode::spec_from_code(code) {
                Some(c) => r == Ok::<DisconnectReasonCode, DecodeError>(c),
                None => r matches Err(e) && e@ == DecodeErrorView::UnrecognizedDisconnectReasonCode(code),
            },
    {
        if code == 0x00 {
            Ok(DisconnectReasonCode::Normal)
        } else if code == 0x04 {
            Ok(DisconnectReasonCode::DisconnectWithWillMessage)
        } else if code == 0x80 {
            Ok(DisconnectReasonCode::UnspecifiedError)
        } else if code == 0x81 {
            Ok(DisconnectReasonCode::MalformedPacket)
        } else if code == 0x82 {
            Ok(DisconnectReasonCode::ProtocolError)
        } else if code == 0x83 {
            Ok(DisconnectReasonCode::ImplementationSpecificError)
        } else if code == 0x87 {
            Ok(DisconnectReasonCode::NotAuthorized)
        } else if code == 0x89 {
            Ok(DisconnectReasonCode::ServerBusy)
        } else if code == 0x8B {
            Ok(DisconnectReasonCode::ServerShuttingDown)
        } else if code == 0x8D {
            Ok(DisconnectReasonCode::KeepAliveTimeout)
        } else if code == 0x8E {
            Ok(DisconnectReasonCode::SessionTakenOver)
        } else if code == 0x8F {
            Ok(DisconnectReasonCode::TopicFilterInvalid)
        } else if code == 0x90 {
            Ok(DisconnectReasonCode::TopicNameInvalid)
        } else if code == 0x93 {
            Ok(DisconnectReasonCode::ReceiveMaximumExceeded)
        } else if code == 0x94 {
            Ok(DisconnectReasonCode::TopicAliasInvalid)
        } else if code == 0x95 {
            Ok(DisconnectReasonCode::PacketTooLarge)
        } else if code == 0x96 {
            Ok(DisconnectReasonCode::MessageRateTooHigh)
        } else if code == 0x97 {
            Ok(DisconnectReasonCode::QuotaExceeded)
        } else if code == 0x98 {
            Ok(DisconnectReasonCode::AdministrativeAction)
        } else if code == 0x99 {
            Ok(DisconnectReasonCode::PayloadFormatInvalid)
        } else if code == 0x9A {
            Ok(DisconnectReasonCode::RetainNotSupported)
        } else if code == 0x9B {
            Ok(DisconnectReasonCode::QosNotSupported)
        } else if code == 0x9C {
            Ok(DisconnectReasonCode::UseAnotherServer)
        } else if code == 0x9D {
            Ok(DisconnectReasonCode::ServerMoved)
        } else if code == 0x9E {
            Ok(DisconnectReasonCode::SharedSubscriptionsNotSupported)
        } else if code == 0x9F {
            Ok(DisconnectReasonCode::ConnectionRateExceeded)
        } else if code == 0xA0 {
            Ok(DisconnectReasonCode::MaximumConnectTime)
        } else if code == 0xA1 {
            Ok(DisconnectReasonCode::SubscriptionIdentifiersNotSupported)
        } else if code == 0xA2 {
            Ok(DisconnectReasonCode::WildcardSubscriptionsNotSupported)
        } else {
            Err(DecodeError::UnrecognizedDisconnectReasonCode(code))
        }
    }

    /// The numeric value of this code.
    pub fn to_code(self) -> (r: u8)
        ensures
            r == self.spec_code(),
    {
        match self {
            DisconnectReasonCode::Normal => 0x00,
            DisconnectReasonCode::DisconnectWithWillMessage => 0x04,
            DisconnectReasonCode::UnspecifiedError => 0x80,
            DisconnectReasonCode::MalformedPacket => 0x81,
            DisconnectReasonCode::ProtocolError => 0x82,
            DisconnectReasonCode::ImplementationSpecificError => 0x83,
            DisconnectReasonCode::NotAuthorized => 0x87,
            DisconnectReasonCode::ServerBusy => 0x89,
            DisconnectReasonCode::ServerShuttingDown => 0x8B,
            DisconnectReasonCode::KeepAliveTimeout => 0x8D,
            DisconnectReasonCode::SessionTakenOver => 0x8E,
            DisconnectReasonCode::TopicFilterInvalid => 0x8F,
            DisconnectReasonCode::TopicNameInvalid => 0x90,
            DisconnectReasonCode::ReceiveMaximumExceeded => 0x93,
            DisconnectReasonCode::TopicAliasInvalid => 0x94,
            DisconnectReasonCode::PacketTooLarge => 0x95,
            DisconnectReasonCode::MessageRateTooHigh => 0x96,
            DisconnectReasonCode::QuotaExceeded => 0x97,
            DisconnectReasonCode::AdministrativeAction => 0x98,
            DisconnectReasonCode::PayloadFormatInvalid => 0x99,
            DisconnectReasonCode::RetainNotSupported => 0x9A,
            DisconnectReasonCode::QosNotSupported => 0x9B,
            DisconnectReasonCode::UseAnotherServer => 0x9C,
            DisconnectReasonCode::ServerMoved => 0x9D,
            DisconnectReasonCode::SharedSubscriptionsNotSupported => 0x9E,
            DisconnectReasonCode::ConnectionRateExceeded => 0x9F,
            DisconnectReasonCode::MaximumConnectTime => 0xA0,
            DisconnectReasonCode::SubscriptionIdentifiersNotSupported => 0xA1,
            DisconnectReasonCode::WildcardSubscriptionsNotSupported => 0xA2,
        }
    }

    /// Every code is recovered from its numeric value, and only from it.
    pub proof fn lemma_code_roundtrip(self, code: u8)
        ensures
            DisconnectReasonCode::spec_from_code(self.spec_code()) == Some(self),
            DisconnectReasonCode::spec_from_code(code) == Some(self) ==> self.spec_code() == code,
    {
    }
}

/// Ref: 3.2.2.2 Connect Reason Code
#[derive(Clone, Copy, Debug, PartialEq, Eq, Structural, PartialOrd, Ord, Hash)]
pub enum ConnectionRefusedReason {
    UnspecifiedError,
    MalformedPacket,
    ProtocolError,
    ImplementationSpecificError,
    UnsupportedProtocolVersion,
    ClientIdentifierNotValid,
    BadUserNameOrPassword,
    NotAuthorized,
    ServerUnavailable,
    ServerBusy,
    Banned,
    BadAuthenticationMethod,
    TopicNameInvalid,
    PacketTooLarge,
    QuotaExceeded,
    PayloadFormatInvalid,
    RetainNotSupported,
    QoSNotSupported,
    UseAnotherServer,
    ServerMoved,
    ConnectionRateExceeded,
}

impl ConnectionRefusedReason {
    /// The code with the given numeric value, if there is one.
    pub open spec fn spec_from_code(code: u8) -> Option<ConnectionRefusedReason> {
        if code == 0x80 {
            Some(ConnectionRefusedReason::UnspecifiedError)
        } else if code == 0x81 {
            Some(ConnectionRefusedReason::MalformedPacket)
        } else if code == 0x82 {
            Some(ConnectionRefusedReason::ProtocolError)
        } else if code == 0x83 {
            Some(ConnectionRefusedReason::ImplementationSpecificError)
        } else if code == 0x84 {
            Some(ConnectionRefusedReason::UnsupportedProtocolVersion)
        } else if code == 0x85 {
            Some(ConnectionRefusedReason::ClientIdentifierNotValid)
        } else if code == 0x86 {
            Some(ConnectionRefusedReason::BadUserNameOrPassword)
        } else if code == 0x87 {
            Some(ConnectionRefusedReason::NotAuthorized)
        } else if code == 0x88 {
            Some(ConnectionRefusedReason::ServerUnavailable)
        } else if code == 0x89 {
            Some(ConnectionRefusedReason::ServerBusy)
        } else if code == 0x8A {
            Some(ConnectionRefusedReason::Banned)
        } else if code == 0x8C {
            Some(ConnectionRefusedReason::BadAuthenticationMethod)
        } else if code == 0x90 {
            Some(ConnectionRefusedReason::TopicNameInvalid)
        } else if code == 0x95 {
            Some(ConnectionRefusedReason::PacketTooLarge)
        } else if code == 0x97 {
            Some(ConnectionRefusedReason::QuotaExceeded)
        } else if code == 0x99 {
            Some(ConnectionRefusedReason::PayloadFormatInvalid)
        } else if code == 0x9A {
            Some(ConnectionRefusedReason::RetainNotSupported)
        } else if code == 0x9B {
            Some(ConnectionRefusedReason::QoSNotSupported)
        } else if code == 0x9C {
            Some(ConnectionRefusedReason::UseAnotherServer)
        } else if code == 0x9D {
            Some(ConnectionRefusedReason::ServerMoved)
        } else if code == 0x9F {
            Some(ConnectionRefusedReason::ConnectionRateExceeded)
        } else {
            None
        }
    }

    /// The numeric value of this code.
    pub open spec fn spec_code(self) -> u8 {
        match self {
            ConnectionRefusedReason::UnspecifiedError => 0x80,
            ConnectionRefusedReason::MalformedPacket => 0x81,
            ConnectionRefusedReason::ProtocolError => 0x82,
            ConnectionRefusedReason::ImplementationSpecificError => 0x83,
            ConnectionRefusedReason::UnsupportedProtocolVersion => 0x84,
            ConnectionRefusedReason::ClientIdentifierNotValid => 0x85,
            ConnectionRefusedReason::BadUserNameOrPassword => 0x86,
            ConnectionRefusedReason::NotAuthorized => 0x87,
            ConnectionRefusedReason::ServerUnavailable => 0x88,
            ConnectionRefusedReason::ServerBusy => 0x89,
            ConnectionRefusedReason::Banned => 0x8A,
            ConnectionRefusedReason::BadAuthenticationMethod => 0x8C,
            ConnectionRefusedReason::TopicNameInvalid => 0x90,
            ConnectionRefusedReason::PacketTooLarge => 0x95,
            ConnectionRefusedReason::QuotaExceeded => 0x97,
            ConnectionRefusedReason::PayloadFormatInvalid => 0x99,
            ConnectionRefusedReason::RetainNotSupported => 0x9A,
            ConnectionRefusedReason::QoSNotSupported => 0x9B,
            ConnectionRefusedReason::UseAnotherServer => 0x9C,
            ConnectionRefusedReason::ServerMoved => 0x9D,
            ConnectionRefusedReason::ConnectionRateExceeded => 0x9F,
        }
    }

    /// Converts a numeric value into a code, failing with `UnrecognizedConnectReasonCode` on unknown values.
    pub fn from_code(code: u8) -> (r: Result<ConnectionRefusedReason, DecodeError>)
        ensures
            match ConnectionRefusedReason::spec_from_code(code) {
                Some(c) => r == Ok::<ConnectionRefusedReason, DecodeError>(c),
                None => r matches Err(e) && e@ == DecodeErrorView::UnrecognizedConnectReasonCode(code),
            },
    {
        if code == 0x80 {
            Ok(ConnectionRefusedReason::UnspecifiedError)
        } else if code == 0x81 {
            Ok(ConnectionRefusedReason::MalformedPacket)
        } else if code == 0x82 {
            Ok(ConnectionRefusedReason::ProtocolError)
        } else if code == 0x83 {
            Ok(ConnectionRefusedReason::ImplementationSpecificError)
        } else if code == 0x84 {
            Ok(ConnectionRefusedReason::UnsupportedProtocolVersion)
        } else if code == 0x85 {
            Ok(ConnectionRefusedReason::ClientIdentifierNotValid)
        } else if code == 0x86 {
            Ok(ConnectionRefusedReason::BadUserNameOrPassword)
        } else if code == 0x87 {
            Ok(ConnectionRefusedReason::NotAuthorized)
        } else if code == 0x88 {
            Ok(ConnectionRefusedReason::ServerUnavailable)
        } else if code == 0x89 {
            Ok(ConnectionRefusedReason::ServerBusy)
        } else if code == 0x8A {
            Ok(ConnectionRefusedReason::Banned)
        } else if code == 0x8C {
            Ok(ConnectionRefusedReason::BadAuthenticationMethod)
        } else if code == 0x90 {
            Ok(ConnectionRefusedReason::TopicNameInvalid)
        } else if code == 0x95 {
            Ok(ConnectionRefusedReason::PacketTooLarge)
        } else if code == 0x97 {
            Ok(ConnectionRefusedReason::QuotaExceeded)
        } else if code == 0x99 {
            Ok(ConnectionRefusedReason::PayloadFormatInvalid)
        } else if code == 0x9A {
            Ok(ConnectionRefusedReason::RetainNotSupported)
        } else if code == 0x9B {
            Ok(ConnectionRefusedReason::QoSNotSupported)
        } else if code == 0x9C {
            Ok(ConnectionRefusedReason::UseAnotherServer)
        } else if code == 0x9D {
            Ok(ConnectionRefusedReason::ServerMoved)
        } else if code == 0x9F {
            Ok(ConnectionRefusedReason::ConnectionRateExceeded)
        } else {
            Err(DecodeError::UnrecognizedConnectReasonCode(code))
        }
    }

    /// The numeric value of this code.
    pub fn to_code(self) -> (r: u8)
        ensures
            r == self.spec_code(),
    {
        match self {
            ConnectionRefusedReason::UnspecifiedError => 0x80,
            ConnectionRefusedReason::MalformedPacket => 0x81,
            ConnectionRefusedReason::ProtocolError => 0x82,
            ConnectionRefusedReason::ImplementationSpecificError => 0x83,
            ConnectionRefusedReason::UnsupportedProtocolVersion => 0x84,
            ConnectionRefusedReason::ClientIdentifierNotValid => 0x85,
            ConnectionRefusedReason::BadUserNameOrPassword => 0x86,
            ConnectionRefusedReason::NotAuthorized => 0x87,
            ConnectionRefusedReason::ServerUnavailable => 0x88,
            ConnectionRefusedReason::ServerBusy => 0x89,
            ConnectionRefusedReason::Banned => 0x8A,
            ConnectionRefusedReason::BadAuthenticationMethod => 0x8C,
            ConnectionRefusedReason::TopicNameInvalid => 0x90,
            ConnectionRefusedReason::PacketTooLarge => 0x95,
            ConnectionRefusedReason::QuotaExceeded => 0x97,
            ConnectionRefusedReason::PayloadFormatInvalid => 0x99,
            ConnectionRefusedReason::RetainNotSupported => 0x9A,
            ConnectionRefusedReason::QoSNotSupported => 0x9B,
            ConnectionRefusedReason::UseAnotherServer => 0x9C,
            ConnectionRefusedReason::ServerMoved => 0x9D,
            ConnectionRefusedReason::ConnectionRateExceeded => 0x9F,
        }
    }

    /// Every code is recovered from its numeric value, and only from it.
    pub proof fn lemma_code_roundtrip(self, code: u8)
        ensures
            ConnectionRefusedReason::spec_from_code(self.spec_code()) == Some(self),
            ConnectionRefusedReason::spec_from_code(code) == Some(self) ==> self.spec_code() == code,
    {
    }
}

impl PubAckReasonCode {
    /// Whether this code reports success.
    pub open spec fn spec_is_success(self) -> bool {
        self == PubAckReasonCode::Success || self == PubAckReasonCode::NoMatchingSubscribers
    }

    pub fn is_success(self) -> (r: bool)
        ensures
            r == self.spec_is_success(),
    {
        matches!(self, PubAckReasonCode::Success | PubAckReasonCode::NoMatchingSubscribers)
    }
}

impl PubRecReasonCode {
    /// Whether this code reports success.
    pub open spec fn spec_is_success(self) -> bool {
        self == PubRecReasonCode::Success || self == PubRecReasonCode::NoMatchingSubscribers
    }

    pub fn is_success(self) -> (r: bool)
        ensures
            r == self.spec_is_success(),
    {
        matches!(self, PubRecReasonCode::Success | PubRecReasonCode::NoMatchingSubscribers)
    }
}

/// Ref: 3.9.3 SUBACK Payload (v3 return codes)
pub const V3_SUBACK_SUCCESS_QOS0: u8 = 0x00;
pub const V3_SUBACK_SUCCESS_QOS1: u8 = 0x01;
pub const V3_SUBACK_SUCCESS_QOS2: u8 = 0x02;
pub const V3_SUBACK_FAILURE: u8 = 0x80;

impl SubscribeReasonCode {
    /// Whether this code grants a subscription.
    pub open spec fn spec_is_success(self) -> bool {
        self == SubscribeReasonCode::GrantedQoS0 || self == SubscribeReasonCode::GrantedQoS1
            || self == SubscribeReasonCode::GrantedQoS2
    }

    pub fn is_success(self) -> (r: bool)
        ensures
            r == self.spec_is_success(),
    {
        matches!(
            self,
            SubscribeReasonCode::GrantedQoS0 | SubscribeReasonCode::GrantedQoS1
                | SubscribeReasonCode::GrantedQoS2
        )
    }

    /// The code that a SUBACK of the given protocol version carries as `code`.
    pub open spec fn spec_try_from(code: u8, version: ProtocolVersion) -> Result<SubscribeReasonCode, DecodeErrorView> {
        match version {
            ProtocolVersion::V3 => if code == V3_SUBACK_SUCCESS_QOS0 {
                Ok(SubscribeReasonCode::GrantedQoS0)
            } else if code == V3_SUBACK_SUCCESS_QOS1 {
                Ok(SubscribeReasonCode::GrantedQoS1)
            } else if code == V3_SUBACK_SUCCESS_QOS2 {
                Ok(SubscribeReasonCode::GrantedQoS2)
            } else if code == V3_SUBACK_FAILURE {
                Ok(SubscribeReasonCode::UnspecifiedError)
            } else {
                Err(DecodeErrorView::UnrecognizedQoS(code))
            },
            ProtocolVersion::V5 => match SubscribeReasonCode::spec_from_code(code) {
                Some(c) => Ok(c),
                None => Err(DecodeErrorView::UnrecognizedSubscribeReasonCode(code)),
            },
        }
    }

    pub fn try_from(code: u8, version: ProtocolVersion) -> (r: Result<SubscribeReasonCode, DecodeError>)
        ensures
            match (r, SubscribeReasonCode::spec_try_from(code, version)) {
                (Ok(c), Ok(sc)) => c == sc,
                (Err(e), Err(se)) => e@ == se,
                _ => false,
            },
    {
        match version {
            ProtocolVersion::V3 => if code == V3_SUBACK_SUCCESS_QOS0 {
                Ok(SubscribeReasonCode::GrantedQoS0)
            } else if code == V3_SUBACK_SUCCESS_QOS1 {
                Ok(SubscribeReasonCode::GrantedQoS1)
            } else if code == V3_SUBACK_SUCCESS_QOS2 {
                Ok(SubscribeReasonCode::GrantedQoS2)
            } else if code == V3_SUBACK_FAILURE {
                Ok(SubscribeReasonCode::UnspecifiedError)
            } else {
                Err(DecodeError::UnrecognizedQoS(code))
            },
            ProtocolVersion::V5 => SubscribeReasonCode::from_code(code),
        }
    }

    /// The value that a SUBACK of the given protocol version carries for this code.
    pub open spec fn spec_to_u8(self, version: ProtocolVersion) -> u8 {
        match version {
            ProtocolVersion::V3 => match self {
                SubscribeReasonCode::GrantedQoS0 => V3_SUBACK_SUCCESS_QOS0,
                SubscribeReasonCode::GrantedQoS1 => V3_SUBACK_SUCCESS_QOS1,
                SubscribeReasonCode::GrantedQoS2 => V3_SUBACK_SUCCESS_QOS2,
                _ => V3_SUBACK_FAILURE,
            },
            ProtocolVersion::V5 => self.spec_code(),
        }
    }

    pub fn to_u8(self, version: ProtocolVersion) -> (r: u8)
        ensures
            r == self.spec_to_u8(version),
    {
        match version {
            ProtocolVersion::V3 => match self {
                SubscribeReasonCode::GrantedQoS0 => V3_SUBACK_SUCCESS_QOS0,
                SubscribeReasonCode::GrantedQoS1 => V3_SUBACK_SUCCESS_QOS1,
                SubscribeReasonCode::GrantedQoS2 => V3_SUBACK_SUCCESS_QOS2,
                _ => V3_SUBACK_FAILURE,
            },
            ProtocolVersion::V5 => self.to_code(),
        }
    }

    /// The code that grants the given QoS.
    pub fn from_qos(qos: QoS) -> (r: SubscribeReasonCode)
        ensures
            r == (match qos {
                QoS::AtMostOnce => SubscribeReasonCode::GrantedQoS0,
                QoS::AtLeastOnce => SubscribeReasonCode::GrantedQoS1,
                QoS::ExactlyOnce => SubscribeReasonCode::GrantedQoS2,
            }),
    {
        match qos {
            QoS::AtMostOnce => SubscribeReasonCode::GrantedQoS0,
            QoS::AtLeastOnce => SubscribeReasonCode::GrantedQoS1,
            QoS::ExactlyOnce => SubscribeReasonCode::GrantedQoS2,
        }
    }
}

} // verus!
