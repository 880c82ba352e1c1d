//! MQTT protocol types for versions 3.1.1 and 5.0.
//!
//! Ref:
//! - <https://docs.oasis-open.org/mqtt/mqtt/v3.1.1/mqtt-v3.1.1.html>
//! - <https://docs.oasis-open.org/mqtt/mqtt/v5.0/mqtt-v5.0.html>
use vstd::prelude::*;

use crate::buffer_pool::{self, BytesAccumulator, Shared};

pub mod auth;
pub mod binary_data;
pub mod byte_str;
pub mod codec_laws;
pub mod code_tables;
pub mod codes;
pub mod connack;
pub mod decode_laws;
pub mod disconnect;
pub mod filter;
pub mod packet;
pub mod packet_fields;
pub mod packet_wf;
pub mod pingreq;
pub mod pingresp;
pub mod properties;
pub mod puback;
pub mod size_laws;
pub mod pubcomp;
pub mod publish;
pub mod pubrec;
pub mod pubrel;
pub mod property;
pub mod property_lists;
pub mod property_sizes;
pub mod suback;
pub mod subscribe;
pub mod topic;
pub mod unsuback;
pub mod unsubscribe;

verus! {

/// The size of the smallest MQTT packet: PINGREQ and PINGRESP are both 2 bytes.
pub const SMALLEST_PACKET_SIZE: usize = 2;

/// The largest number of bytes a variable byte integer may take.
pub const DEFAULT_REMAINING_LENGTH_FIELD_MAX_LENGTH: usize = 4;

/// The largest value a variable byte integer can hold.
pub const VARINT_MAX: u32 = 268435455;

pub const PROTOCOL_VERSION_V3: u8 = 0x04;

pub const PROTOCOL_VERSION_V5: u8 = 0x05;

/// The character that starts a system topic.
pub const DOLLAR_SIGN: u8 = 0x24;

/// The topic level separator `/`.
pub const SEPARATOR: u8 = 0x2F;

/// The single level wildcard `+`.
pub const SINGLE_LEVEL_MATCH: u8 = 0x2B;

/// The multi level wildcard `#`.
pub const MULTI_LEVEL_MATCH: u8 = 0x23;

/// Version of the MQTT Protocol that the client requested in the CONNECT packet.
#[derive(Clone, Copy, Debug, PartialEq, Eq, Structural)]
pub enum ProtocolVersion {
    V3,
    V5,
}

impl ProtocolVersion {
    pub fn is_v3(self) -> (r: bool)
        ensures
            r == (self == ProtocolVersion::V3),
    {
        matches!(self, ProtocolVersion::V3)
    }

    pub fn is_v5(self) -> (r: bool)
        ensures
            r == (self == ProtocolVersion::V5),
    {
        matches!(self, ProtocolVersion::V5)
    }

    pub fn to_u8(self) -> (r: u8)
        ensures
            r == (match self {
                ProtocolVersion::V3 => PROTOCOL_VERSION_V3,
                ProtocolVersion::V5 => PROTOCOL_VERSION_V5,
            }),
    {
        match self {
            ProtocolVersion::V3 => PROTOCOL_VERSION_V3,
            ProtocolVersion::V5 => PROTOCOL_VERSION_V5,
        }
    }

    pub fn to_str(self) -> (r: &'static str)
        ensures
            r@ == (match self {
                ProtocolVersion::V3 => "V3"@,
                ProtocolVersion::V5 => "V5"@,
            }),
    {
        match self {
            ProtocolVersion::V3 => "V3",
            ProtocolVersion::V5 => "V5",
        }
    }
}

/// A packet identifier: a two-byte unsigned integer that cannot be zero.
///
/// Ref:
/// - 3.1.1: 2.3.1 Packet Identifier
/// - 5.0:   2.2.1 Packet Identifier
#[derive(Clone, Copy, Debug, PartialEq, Eq, Structural, PartialOrd, Ord, Hash)]
pub struct PacketIdentifier(u16);

impl View for PacketIdentifier {
    type V = u16;

    closed spec fn view(&self) -> u16 {
        self.0
    }
}

impl PacketIdentifier {
    /// A packet identifier is never zero.
    #[verifier::type_invariant]
    pub open spec fn inv(self) -> bool {
        self@ != 0
    }

    /// The largest valid packet identifier.
    pub fn max_value() -> (r: Self)
        ensures
            r@ == 65535,
    {
        PacketIdentifier(65535)
    }

    /// Two packet identifiers with the same raw value are the same.
    pub proof fn lemma_view_injective(a: PacketIdentifier, b: PacketIdentifier)
        ensures
            a@ == b@ <==> a == b,
    {
    }

    /// Converts the given raw packet identifier into this type, if it is not zero.
    pub fn new(raw: u16) -> (r: Option<Self>)
        ensures
            raw == 0 ==> r is None,
            raw != 0 ==> (r matches Some(p) && p@ == raw),
    {
        if raw == 0 {
            None
        } else {
            Some(PacketIdentifier(raw))
        }
    }

    /// Gets the raw packet identifier.
    pub fn get(self) -> (r: u16)
        ensures
            r == self@,
            r != 0,
    {
        proof {
            use_type_invariant(&self);
        }
        self.0
    }

    /// Converts the given raw packet identifier into this type; it must not be zero.
    pub fn new_unchecked(raw: u16) -> (r: Self)
        requires
            raw != 0,
        ensures
            r@ == raw,
    {
        PacketIdentifier(raw)
    }

    /// The identifier `other` places after `raw`, wrapping around past the largest one to 1.
    pub open spec fn spec_add(raw: u16, other: u16) -> u16 {
        let sum = (raw + other) % 65536;
        if sum == 0 {
            1
        } else {
            sum as u16
        }
    }

    /// Adds `other`, wrapping around; a result of zero becomes 1.
    pub fn add(self, other: u16) -> (r: Self)
        ensures
            r@ == PacketIdentifier::spec_add(self@, other),
    {
        let result = self.0.wrapping_add(other);
        if result == 0 {
            PacketIdentifier(1)
        } else {
            PacketIdentifier(result)
        }
    }
}

/// A combination of packet identifier, DUP flag and QoS of a PUBLISH that allows only valid
/// combinations: a packet of QoS 0 has neither.
#[derive(Clone, Copy, Debug, PartialEq, Eq, Structural)]
pub enum PacketIdentifierDupQoS {
    AtMostOnce,
    AtLeastOnce(PacketIdentifier, bool),
    ExactlyOnce(PacketIdentifier, bool),
}

impl View for PacketIdentifierDupQoS {
    /// The QoS, the DUP flag and the packet identifier.
    type V = (codes::QoS, bool, Option<u16>);

    open spec fn view(&self) -> (codes::QoS, bool, Option<u16>) {
        match self {
            PacketIdentifierDupQoS::AtMostOnce => (codes::QoS::AtMostOnce, false, None),
            PacketIdentifierDupQoS::AtLeastOnce(p, dup) => (codes::QoS::AtLeastOnce, *dup, Some(p@)),
            PacketIdentifierDupQoS::ExactlyOnce(p, dup) => (codes::QoS::ExactlyOnce, *dup, Some(p@)),
        }
    }
}

impl PacketIdentifierDupQoS {
    /// The QoS.
    pub fn qos(self) -> (r: codes::QoS)
        ensures
            r == self@.0,
    {
        self.into_parts().0
    }

    /// The same QoS and packet identifier with the DUP flag set, as a PUBLISH that is sent again
    /// carries them; QoS 0 has no DUP flag and stays as it is.
    pub fn with_dup(self) -> (r: Self)
        ensures
            r@ == (self@.0, !(self@.0 is AtMostOnce), self@.2),
    {
        match self {
            PacketIdentifierDupQoS::AtMostOnce => PacketIdentifierDupQoS::AtMostOnce,
            PacketIdentifierDupQoS::AtLeastOnce(p, _) => PacketIdentifierDupQoS::AtLeastOnce(p, true),
            PacketIdentifierDupQoS::ExactlyOnce(p, _) => PacketIdentifierDupQoS::ExactlyOnce(p, true),
        }
    }

    /// The QoS, the DUP flag and the packet identifier.
    pub fn into_parts(self) -> (r: (codes::QoS, bool, Option<PacketIdentifier>))
        ensures
            r.0 == self@.0,
            r.1 == self@.1,
            match r.2 {
                Some(p) => self@.2 == Some(p@),
                None => self@.2 is None,
            },
    {
        match self {
            PacketIdentifierDupQoS::AtMostOnce => (codes::QoS::AtMostOnce, false, None),
            PacketIdentifierDupQoS::AtLeastOnce(p, dup) => (codes::QoS::AtLeastOnce, dup, Some(p)),
            PacketIdentifierDupQoS::ExactlyOnce(p, dup) => (codes::QoS::ExactlyOnce, dup, Some(p)),
        }
    }
}

/// Errors when decoding a packet.
#[derive(Debug, PartialEq, Eq)]
pub enum DecodeError {
    // Common
    BufferPool(buffer_pool::Error),
    ConnectReservedSet,
    ConnectZeroLengthIdWithExistingSession,
    EmptyFilter,
    EmptyTopic,
    IncompletePacket,
    InvalidByteStr(&'static str),
    InvalidFilter(String),
    InvalidTopic(String),
    NoTopics,
    PublishDupAtMostOnce,
    TrailingGarbage,
    UnrecognizedConnAckFlags(u8),
    UnrecognizedPacket { packet_type: u8, flags: u8, remaining_length: usize },
    UnrecognizedProtocolName(String),
    UnrecognizedProtocolVersion(u8),
    UnrecognizedQoS(u8),
    UnrecognizedRejectKind(u8),
    VarintTooHigh,
    WillPropertiesFlagsSetButNotWillFlag,
    ZeroPacketIdentifier,
    ZeroValueOfNonZeroType,
    // Specific to v3
    ConnectPasswordFlagSetButNotUsernameFlag,
    // Specific to v5
    DuplicateProperty(&'static str),
    MissingRequiredProperty(&'static str),
    UnexpectedProperty,
    UnrecognizedPropertyIdentifier(u8),
    InvalidMaximumPacketSize(u32),
    InvalidReceiveMaximum(u16),
    InvalidTopicAlias(u16),
    UnrecognizedAuthenticateReasonCode(u8),
    UnrecognizedConnectReasonCode(u8),
    UnrecognizedConnectReturnCode(u8),
    UnrecognizedDisconnectReasonCode(u8),
    UnrecognizedMaximumQoS(u8),
    UnrecognizedPayloadFormatIndicator(u8),
    UnrecognizedPubAckReasonCode(u8),
    UnrecognizedPubCompReasonCode(u8),
    UnrecognizedPubRecReasonCode(u8),
    UnrecognizedPubRelReasonCode(u8),
    UnrecognizedRequestProblemInformation(u8),
    UnrecognizedRequestResponseInformation(u8),
    UnrecognizedRetainAvailable(u8),
    UnrecognizedRetainHandling(u8),
    UnrecognizedSharedSubscriptionAvailable(u8),
    UnrecognizedSubscribeReasonCode(u8),
    UnrecognizedSubscriptionIdentifiersAvailable(u8),
    UnrecognizedUnsubAckReasonCode(u8),
    UnrecognizedWildcardSubscriptionAvailable(u8),
    SubscriptionOptionsReservedSet,
    NoLocalWithSharedSubscription,
}

/// A [`DecodeError`] with its texts taken as character sequences.
pub enum DecodeErrorView {
    BufferPool,
    ConnectReservedSet,
    ConnectZeroLengthIdWithExistingSession,
    EmptyFilter,
    EmptyTopic,
    IncompletePacket,
    InvalidByteStr(Seq<char>),
    InvalidFilter(Seq<char>),
    InvalidTopic(Seq<char>),
    NoTopics,
    PublishDupAtMostOnce,
    TrailingGarbage,
    UnrecognizedConnAckFlags(u8),
    UnrecognizedPacket { packet_type: u8, flags: u8, remaining_length: usize },
    UnrecognizedProtocolName(Seq<char>),
    UnrecognizedProtocolVersion(u8),
    UnrecognizedQoS(u8),
    UnrecognizedRejectKind(u8),
    VarintTooHigh,
    WillPropertiesFlagsSetButNotWillFlag,
    ZeroPacketIdentifier,
    ZeroValueOfNonZeroType,
    ConnectPasswordFlagSetButNotUsernameFlag,
    DuplicateProperty(Seq<char>),
    MissingRequiredProperty(Seq<char>),
    UnexpectedProperty,
    UnrecognizedPropertyIdentifier(u8),
    InvalidMaximumPacketSize(u32),
    InvalidReceiveMaximum(u16),
    InvalidTopicAlias(u16),
    UnrecognizedAuthenticateReasonCode(u8),
    UnrecognizedConnectReasonCode(u8),
    UnrecognizedConnectReturnCode(u8),
    UnrecognizedDisconnectReasonCode(u8),
    UnrecognizedMaximumQoS(u8),
    UnrecognizedPayloadFormatIndicator(u8),
    UnrecognizedPubAckReasonCode(u8),
    UnrecognizedPubCompReasonCode(u8),
    UnrecognizedPubRecReasonCode(u8),
    UnrecognizedPubRelReasonCode(u8),
    UnrecognizedRequestProblemInformation(u8),
    UnrecognizedRequestResponseInformation(u8),
    UnrecognizedRetainAvailable(u8),
    UnrecognizedRetainHandling(u8),
    UnrecognizedSharedSubscriptionAvailable(u8),
    UnrecognizedSubscribeReasonCode(u8),
    UnrecognizedSubscriptionIdentifiersAvailable(u8),
    UnrecognizedUnsubAckReasonCode(u8),
    UnrecognizedWildcardSubscriptionAvailable(u8),
    SubscriptionOptionsReservedSet,
    NoLocalWithSharedSubscription,
}

impl View for DecodeError {
    type V = DecodeErrorView;

    open spec fn view(&self) -> DecodeErrorView {
        match self {
            DecodeError::BufferPool(_) => DecodeErrorView::BufferPool,
            DecodeError::ConnectReservedSet => DecodeErrorView::ConnectReservedSet,
            DecodeError::ConnectZeroLengthIdWithExistingSession => DecodeErrorView::ConnectZeroLengthIdWithExistingSession,
            DecodeError::EmptyFilter => DecodeErrorView::EmptyFilter,
            DecodeError::EmptyTopic => DecodeErrorView::EmptyTopic,
            DecodeError::IncompletePacket => DecodeErrorView::IncompletePacket,
            DecodeError::InvalidByteStr(s) => DecodeErrorView::InvalidByteStr(s@),
            DecodeError::InvalidFilter(s) => DecodeErrorView::InvalidFilter(s@),
            DecodeError::InvalidTopic(s) => DecodeErrorView::InvalidTopic(s@),
            DecodeError::NoTopics => DecodeErrorView::NoTopics,
            DecodeError::PublishDupAtMostOnce => DecodeErrorView::PublishDupAtMostOnce,
            DecodeError::TrailingGarbage => DecodeErrorView::TrailingGarbage,
            DecodeError::UnrecognizedConnAckFlags(v) => DecodeErrorView::UnrecognizedConnAckFlags(*v),
            DecodeError::UnrecognizedPacket { packet_type, flags, remaining_length } => DecodeErrorView::UnrecognizedPacket { packet_type: *packet_type, flags: *flags, remaining_length: *remaining_length },
            DecodeError::UnrecognizedProtocolName(s) => DecodeErrorView::UnrecognizedProtocolName(s@),
            DecodeError::UnrecognizedProtocolVersion(v) => DecodeErrorView::UnrecognizedProtocolVersion(*v),
            DecodeError::UnrecognizedQoS(v) => DecodeErrorView::UnrecognizedQoS(*v),
            DecodeError::UnrecognizedRejectKind(v) => DecodeErrorView::UnrecognizedRejectKind(*v),
            DecodeError::VarintTooHigh => DecodeErrorView::VarintTooHigh,
            DecodeError::WillPropertiesFlagsSetButNotWillFlag => DecodeErrorView::WillPropertiesFlagsSetButNotWillFlag,
            DecodeError::ZeroPacketIdentifier => DecodeErrorView::ZeroPacketIdentifier,
            DecodeError::ZeroValueOfNonZeroType => DecodeErrorView::ZeroValueOfNonZeroType,
            DecodeError::ConnectPasswordFlagSetButNotUsernameFlag => DecodeErrorView::ConnectPasswordFlagSetButNotUsernameFlag,
            DecodeError::DuplicateProperty(s) => DecodeErrorView::DuplicateProperty(s@),
            DecodeError::MissingRequiredProperty(s) => DecodeErrorView::MissingRequiredProperty(s@),
            DecodeError::UnexpectedProperty => DecodeErrorView::UnexpectedProperty,
            DecodeError::UnrecognizedPropertyIdentifier(v) => DecodeErrorView::UnrecognizedPropertyIdentifier(*v),
            DecodeError::InvalidMaximumPacketSize(v) => DecodeErrorView::InvalidMaximumPacketSize(*v),
            DecodeError::InvalidReceiveMaximum(v) => DecodeErrorView::InvalidReceiveMaximum(*v),
            DecodeError::InvalidTopicAlias(v) => DecodeErrorView::InvalidTopicAlias(*v),
            DecodeError::UnrecognizedAuthenticateReasonCode(v) => DecodeErrorView::UnrecognizedAuthenticateReasonCode(*v),
            DecodeError::UnrecognizedConnectReasonCode(v) => DecodeErrorView::UnrecognizedConnectReasonCode(*v),
            DecodeError::UnrecognizedConnectReturnCode(v) => DecodeErrorView::UnrecognizedConnectReturnCode(*v),
            DecodeError::UnrecognizedDisconnectReasonCode(v) => DecodeErrorView::UnrecognizedDisconnectReasonCode(*v),
            DecodeError::UnrecognizedMaximumQoS(v) => DecodeErrorView::UnrecognizedMaximumQoS(*v),
            DecodeError::UnrecognizedPayloadFormatIndicator(v) => DecodeErrorView::UnrecognizedPayloadFormatIndicator(*v),
            DecodeError::UnrecognizedPubAckReasonCode(v) => DecodeErrorView::UnrecognizedPubAckReasonCode(*v),
            DecodeError::UnrecognizedPubCompReasonCode(v) => DecodeErrorView::UnrecognizedPubCompReasonCode(*v),
            DecodeError::UnrecognizedPubRecReasonCode(v) => DecodeErrorView::UnrecognizedPubRecReasonCode(*v),
            DecodeError::UnrecognizedPubRelReasonCode(v) => DecodeErrorView::UnrecognizedPubRelReasonCode(*v),
            DecodeError::UnrecognizedRequestProblemInformation(v) => DecodeErrorView::UnrecognizedRequestProblemInformation(*v),
            DecodeError::UnrecognizedRequestResponseInformation(v) => DecodeErrorView::UnrecognizedRequestResponseInformation(*v),
            DecodeError::UnrecognizedRetainAvailable(v) => DecodeErrorView::UnrecognizedRetainAvailable(*v),
            DecodeError::UnrecognizedRetainHandling(v) => DecodeErrorView::UnrecognizedRetainHandling(*v),
            DecodeError::UnrecognizedSharedSubscriptionAvailable(v) => DecodeErrorView::UnrecognizedSharedSubscriptionAvailable(*v),
            DecodeError::UnrecognizedSubscribeReasonCode(v) => DecodeErrorView::UnrecognizedSubscribeReasonCode(*v),
            DecodeError::UnrecognizedSubscriptionIdentifiersAvailable(v) => DecodeErrorView::UnrecognizedSubscriptionIdentifiersAvailable(*v),
            DecodeError::UnrecognizedUnsubAckReasonCode(v) => DecodeErrorView::UnrecognizedUnsubAckReasonCode(*v),
            DecodeError::UnrecognizedWildcardSubscriptionAvailable(v) => DecodeErrorView::UnrecognizedWildcardSubscriptionAvailable(*v),
            DecodeError::SubscriptionOptionsReservedSet => DecodeErrorView::SubscriptionOptionsReservedSet,
            DecodeError::NoLocalWithSharedSubscription => DecodeErrorView::NoLocalWithSharedSubscription,
        }
    }
}

/// The view of a decoding result.
pub open spec fn result_view<T: View>(r: Result<T, DecodeError>) -> Result<T::V, DecodeErrorView> {
    match r {
        Ok(v) => Ok(v@),
        Err(e) => Err(e@),
    }
}

/// Errors when encoding a packet.
#[derive(Debug, Clone, Copy, PartialEq, Eq, Structural)]
pub enum EncodeError {
    // Common
    InsufficientBuffer,
    NoTopics,
    RemainingLengthTooHigh(usize),
    StringTooLarge(usize),
    VarintTooHigh(u32),
    WillTooLarge(usize),
    // Specific to v3
    ConnectPasswordWithoutUsername,
    NegativePubAck(codes::PubAckReasonCode),
    NegativePubComp(codes::PubCompReasonCode),
    NegativePubRec(codes::PubRecReasonCode),
    NegativePubRel(codes::PubRelReasonCode),
    NegativeUnsubAck(codes::UnsubAckReasonCode),
    // Specific to v5
    BinaryDataTooLarge(usize),
}

// ---------------------------------------------------------------------------------------------
// Variable byte integers
// ---------------------------------------------------------------------------------------------

/// Decodes an MQTT variable byte integer from the start of `s`.
///
/// - `Ok(Some((value, n)))`: the integer was complete in the first `n` bytes.
/// - `Ok(None)`: `s` ends before the integer does.
/// - `Err(VarintTooHigh)`: the integer does not end within four bytes.
///
/// Ref:
/// - 3.1.1: 2.2.3 Remaining Length
/// - 5.0:   1.5.5 Variable Byte Integer
pub open spec fn spec_decode_varint(s: Seq<u8>) -> Result<Option<(u32, nat)>, DecodeErrorView> {
    if s.len() == 0 {
        Ok(None)
    } else if s[0] < 128 {
        Ok(Some((s[0] as u32, 1)))
    } else if s.len() == 1 {
        Ok(None)
    } else if s[1] < 128 {
        Ok(Some((((s[0] - 128) + 128 * s[1]) as u32, 2)))
    } else if s.len() == 2 {
        Ok(None)
    } else if s[2] < 128 {
        Ok(Some((((s[0] - 128) + 128 * (s[1] - 128) + 16384 * s[2]) as u32, 3)))
    } else if s.len() == 3 {
        Ok(None)
    } else if s[3] < 128 {
        Ok(Some((((s[0] - 128) + 128 * (s[1] - 128) + 16384 * (s[2] - 128) + 2097152 * s[3]) as u32, 4)))
    } else {
        Err(DecodeErrorView::VarintTooHigh)
    }
}

/// The shortest encoding of `v` as a variable byte integer.
pub open spec fn spec_encode_varint(v: nat) -> Seq<u8>
    decreases v,
{
    if v < 128 {
        seq![v as u8]
    } else {
        seq![(v % 128 + 128) as u8] + spec_encode_varint(v / 128)
    }
}

/// Decodes a variable byte integer from the start of `src`, returning the value and the number
/// of bytes it took.
pub fn decode_varint(src: &[u8]) -> (r: Result<Option<(u32, usize)>, DecodeError>)
    ensures
        match (r, spec_decode_varint(src@)) {
            (Ok(None), Ok(None)) => true,
            (Ok(Some((v, n))), Ok(Some((sv, sn)))) => v == sv && n == sn,
            (Err(e), Err(se)) => e@ == se,
            _ => false,
        },
{
    if src.len() == 0 {
        return Ok(None);
    }
    let b0 = src[0];
    if b0 < 128 {
        return Ok(Some((b0 as u32, 1)));
    }
    if src.len() == 1 {
        return Ok(None);
    }
    let b1 = src[1];
    if b1 < 128 {
        return Ok(Some((((b0 - 128) as u32) + 128 * (b1 as u32), 2)));
    }
    if src.len() == 2 {
        return Ok(None);
    }
    let b2 = src[2];
    if b2 < 128 {
        return Ok(Some((((b0 - 128) as u32) + 128 * ((b1 - 128) as u32) + 16384 * (b2 as u32), 3)));
    }
    if src.len() == 3 {
        return Ok(None);
    }
    let b3 = src[3];
    if b3 < 128 {
        return Ok(
            Some(
                (
                    ((b0 - 128) as u32) + 128 * ((b1 - 128) as u32) + 16384 * ((b2 - 128) as u32)
                        + 2097152 * (b3 as u32),
                    4,
                ),
            ),
        );
    }
    Err(DecodeError::VarintTooHigh)
}

/// Facts about the encoding of a variable byte integer.
pub proof fn lemma_encode_varint(v: nat)
    requires
        v <= VARINT_MAX,
    ensures
        1 <= spec_encode_varint(v).len() <= 4,
        v < 128 ==> spec_encode_varint(v) == seq![v as u8],
        128 <= v < 16384 ==> spec_encode_varint(v) == seq![(v % 128 + 128) as u8, (v / 128) as u8],
        16384 <= v < 2097152 ==> spec_encode_varint(v) == seq![
            (v % 128 + 128) as u8,
            ((v / 128) % 128 + 128) as u8,
            (v / 16384) as u8,
        ],
        2097152 <= v ==> spec_encode_varint(v) == seq![
            (v % 128 + 128) as u8,
            ((v / 128) % 128 + 128) as u8,
            ((v / 16384) % 128 + 128) as u8,
            (v / 2097152) as u8,
        ],
{
    reveal_with_fuel(spec_encode_varint, 5);
    if v >= 128 {
        assert((v / 128) / 128 == v / 16384);
        assert((v / 16384) / 128 == v / 2097152);
    }
    if 128 <= v < 16384 {
        assert(spec_encode_varint(v) =~= seq![(v % 128 + 128) as u8, (v / 128) as u8]);
    }
    if 16384 <= v < 2097152 {
        assert(spec_encode_varint(v / 128) =~= seq![((v / 128) % 128 + 128) as u8, (v / 16384) as u8]);
        assert(spec_encode_varint(v) =~= seq![
            (v % 128 + 128) as u8,
            ((v / 128) % 128 + 128) as u8,
            (v / 16384) as u8,
        ]);
    }
    if 2097152 <= v {
        assert(spec_encode_varint(v / 16384) =~= seq![((v / 16384) % 128 + 128) as u8, (v / 2097152) as u8]);
        assert(spec_encode_varint(v / 128) =~= seq![
            ((v / 128) % 128 + 128) as u8,
            ((v / 16384) % 128 + 128) as u8,
            (v / 2097152) as u8,
        ]);
        assert(spec_encode_varint(v) =~= seq![
            (v % 128 + 128) as u8,
            ((v / 128) % 128 + 128) as u8,
            ((v / 16384) % 128 + 128) as u8,
            (v / 2097152) as u8,
        ]);
    }
}

/// Decoding the encoding of a variable byte integer gives back the integer, whatever follows it.
pub proof fn lemma_varint_roundtrip(v: nat, rest: Seq<u8>)
    requires
        v <= VARINT_MAX,
    ensures
        spec_decode_varint(spec_encode_varint(v) + rest) == Ok::<Option<(u32, nat)>, DecodeErrorView>(
            Some((v as u32, spec_encode_varint(v).len())),
        ),
{
    lemma_encode_varint(v);
    let s = spec_encode_varint(v) + rest;
    if v < 128 {
    } else if v < 16384 {
        assert(s[0] == (v % 128 + 128) as u8);
        assert(s[1] == (v / 128) as u8);
    } else if v < 2097152 {
        assert(s[0] == (v % 128 + 128) as u8);
        assert(s[1] == ((v / 128) % 128 + 128) as u8);
        assert(s[2] == (v / 16384) as u8);
        assert(v == v % 128 + 128 * ((v / 128) % 128) + 16384 * (v / 16384));
    } else {
        assert(s[0] == (v % 128 + 128) as u8);
        assert(s[1] == ((v / 128) % 128 + 128) as u8);
        assert(s[2] == ((v / 16384) % 128 + 128) as u8);
        assert(s[3] == (v / 2097152) as u8);
        assert(v == v % 128 + 128 * ((v / 128) % 128) + 16384 * ((v / 16384) % 128) + 2097152 * (v / 2097152));
    }
}

/// A value too high for a variable byte integer takes at least five bytes in the unbounded
/// encoding.
pub proof fn lemma_encode_varint_long(v: nat)
    requires
        v > VARINT_MAX,
    ensures
        spec_encode_varint(v).len() >= 5,
{
    reveal_with_fuel(spec_encode_varint, 5);
    assert((v / 128) / 128 == v / 16384);
    assert((v / 16384) / 128 == v / 2097152);
    assert(v / 2097152 >= 128);
    assert(spec_encode_varint(v / 2097152).len() >= 2);
    assert(spec_encode_varint(v / 16384).len() >= 3);
    assert(spec_encode_varint(v / 128).len() >= 4);
}

/// The bytes the variable byte integer encoder writes for `v`: its encoding, cut off after the
/// fourth byte, where the encoder stops.
pub open spec fn varint_attempt(v: nat) -> Seq<u8> {
    let e = spec_encode_varint(v);
    if e.len() < 4 {
        e
    } else {
        e.take(4)
    }
}

/// The number of leading bytes that stay when parts of the sizes in `parts` are copied one after
/// another into an accumulator with `spare` bytes spare, each part all or nothing: the bytes of
/// the parts before the first that does not fit.
pub open spec fn parts_written(parts: Seq<nat>, spare: nat) -> nat
    decreases parts.len(),
{
    if parts.len() == 0 {
        0
    } else if parts[0] <= spare {
        parts[0] + parts_written(parts.drop_first(), (spare - parts[0]) as nat)
    } else {
        0
    }
}

/// The sum of `parts`.
pub open spec fn parts_total(parts: Seq<nat>) -> nat
    decreases parts.len(),
{
    if parts.len() == 0 {
        0
    } else {
        parts[0] + parts_total(parts.drop_first())
    }
}

/// What writing `bytes` into an accumulator that held `before` with `spare` bytes spare leaves
/// (`after`, `spare_after`, and the result `r`), when the leading parts of `bytes`, of the sizes
/// in `parts`, are copied, each all or nothing, and the rest is handed over without copying:
/// `done` and all of `bytes` if the copied parts fit; otherwise `InsufficientBuffer`, and the
/// bytes of the parts before the first that did not fit.
pub open spec fn put_outcome(
    before: Seq<u8>,
    spare: nat,
    after: Seq<u8>,
    spare_after: nat,
    bytes: Seq<u8>,
    parts: Seq<nat>,
    done: Result<(), EncodeError>,
    r: Result<(), EncodeError>,
) -> bool {
    if parts_total(parts) <= spare {
        &&& r == done
        &&& after == before + bytes
        &&& spare_after >= spare - bytes.len()
    } else {
        &&& r == Err::<(), EncodeError>(EncodeError::InsufficientBuffer)
        &&& after == before + bytes.take(parts_written(parts, spare) as int)
    }
}

/// A part in front of others: it is written when it fits, and then the others with what is left.
pub proof fn lemma_parts_cons(a: nat, q: Seq<nat>, spare: nat)
    ensures
        parts_total(seq![a] + q) == a + parts_total(q),
        parts_written(seq![a] + q, spare) == if a <= spare {
            a + parts_written(q, (spare - a) as nat)
        } else {
            0
        },
{
    assert((seq![a] + q).drop_first() =~= q);
    assert((seq![a] + q)[0] == a);
}

/// Parts of one byte each: as many are written as there are spare bytes, up to all of them.
pub proof fn lemma_single_byte_parts(parts: Seq<nat>, spare: nat)
    requires
        forall|i: int| 0 <= i < parts.len() ==> parts[i] == 1,
    ensures
        parts_total(parts) == parts.len(),
        spare < parts.len() ==> parts_written(parts, spare) == spare,
    decreases parts.len(),
{
    if parts.len() > 0 {
        let rest = parts.drop_first();
        assert forall|i: int| 0 <= i < rest.len() implies rest[i] == 1 by {
            assert(rest[i] == parts[i + 1]);
        }
        if spare >= 1 {
            lemma_single_byte_parts(rest, (spare - 1) as nat);
        } else {
            lemma_single_byte_parts(rest, 0);
        }
    }
}

/// Encodes `item` as a variable byte integer into `dst`, one byte at a time: it fails with
/// `InsufficientBuffer` at the first byte `dst` has no room for, and with `VarintTooHigh` once
/// four bytes are written and more would follow. The bytes written before a failure stay.
pub fn encode_varint<B: BytesAccumulator>(item: u32, dst: &mut B) -> (r: Result<(), EncodeError>)
    requires
        old(dst).wf(),
    ensures
        final(dst).wf(),
        ({
            let bytes = varint_attempt(item as nat);
            if old(dst).spare() < bytes.len() {
                &&& r == Err::<(), EncodeError>(EncodeError::InsufficientBuffer)
                &&& final(dst).contents() == old(dst).contents() + bytes.take(old(dst).spare() as int)
            } else {
                &&& r == if item > VARINT_MAX {
                    Err::<(), EncodeError>(EncodeError::VarintTooHigh(item))
                } else {
                    Ok::<(), EncodeError>(())
                }
                &&& final(dst).contents() == old(dst).contents() + bytes
                &&& final(dst).spare() == old(dst).spare() - bytes.len()
            }
        }),
        item <= VARINT_MAX ==> varint_attempt(item as nat) == spec_encode_varint(item as nat),
{
    let ghost e = spec_encode_varint(item as nat);
    let ghost c0 = dst.contents();
    let ghost s0 = dst.spare();
    proof {
        if item <= VARINT_MAX {
            lemma_encode_varint(item as nat);
        } else {
            lemma_encode_varint_long(item as nat);
        }
        assert(e.take(0) + e =~= e);
    }
    let mut cur: u32 = item;
    let mut written: usize = 0;
    loop
        invariant
            dst.wf(),
            written < 4,
            e == spec_encode_varint(item as nat),
            item <= VARINT_MAX ==> e.len() <= 4,
            item > VARINT_MAX ==> e.len() >= 5,
            e.take(written as int) + spec_encode_varint(cur as nat) == e,
            written < e.len(),
            e.len() == written + spec_encode_varint(cur as nat).len(),
            written > 0 ==> cur > 0,
            dst.contents() == c0 + e.take(written as int),
            c0 == old(dst).contents(),
            s0 == old(dst).spare(),
            written <= s0,
            dst.spare() == s0 - written,
        decreases 4 - written,
    {
        let ghost before = e.take(written as int);
        let next = cur / 128;
        let byte: u8 = if next > 0 {
            (cur % 128 + 128) as u8
        } else {
            cur as u8
        };
        proof {
            assert(spec_encode_varint(cur as nat)[0] == byte);
            assert(e.len() == written + spec_encode_varint(cur as nat).len());
            assert(e[written as int] == byte) by {
                assert(e[written as int] == (before + spec_encode_varint(cur as nat))[written as int]);
            }
            assert(e.take(written + 1) =~= before.push(byte));
            if next > 0 {
                assert(spec_encode_varint(cur as nat) == seq![byte] + spec_encode_varint(next as nat));
                assert(e.take(written + 1) + spec_encode_varint(next as nat) =~= e);
                assert(spec_encode_varint(next as nat).len() >= 1);
            } else {
                assert(spec_encode_varint(cur as nat) == seq![byte]);
                assert(e.len() == written + 1);
            }
        }
        if crate::buffer_pool::accumulators::try_put_u8(dst, byte).is_none() {
            proof {
                assert(varint_attempt(item as nat).take(s0 as int) =~= e.take(written as int));
            }
            return Err(EncodeError::InsufficientBuffer);
        }
        written = written + 1;
        cur = next;
        if cur == 0 {
            proof {
                assert(e.take(written as int) =~= e);
                assert(varint_attempt(item as nat) == e);
            }
            return Ok(());
        }
        if written == 4 {
            proof {
                assert(spec_encode_varint(cur as nat).len() >= 1);
                assert(varint_attempt(item as nat) == e.take(4));
            }
            return Err(EncodeError::VarintTooHigh(item));
        }
    }
}

/// Decodes an MQTT "remaining length", a variable byte integer taken as a `usize`.
///
/// Ref:
/// - 3.1.1: 2.2.3 Remaining Length
/// - 5.0:   2.1.4 Remaining Length
pub fn decode_remaining_length(src: &[u8]) -> (r: Result<Option<(usize, usize)>, DecodeError>)
    ensures
        match (r, spec_decode_varint(src@)) {
            (Ok(None), Ok(None)) => true,
            (Ok(Some((v, n))), Ok(Some((sv, sn)))) => v == sv && n == sn,
            (Err(e), Err(se)) => e@ == se,
            _ => false,
        },
{
    match decode_varint(src) {
        Ok(Some((v, n))) => Ok(Some((v as usize, n))),
        Ok(None) => Ok(None),
        Err(e) => Err(e),
    }
}

/// Encodes `item` as a remaining length into `dst`: as a variable byte integer, any failure
/// being `RemainingLengthTooHigh`. A length beyond `u32` writes nothing; otherwise the bytes
/// written before a failure stay.
pub fn encode_remaining_length<B: BytesAccumulator>(item: usize, dst: &mut B) -> (r: Result<
    (),
    EncodeError,
>)
    requires
        old(dst).wf(),
    ensures
        final(dst).wf(),
        item > u32::MAX ==> r == Err::<(), EncodeError>(EncodeError::RemainingLengthTooHigh(item))
            && final(dst).contents() == old(dst).contents(),
        item <= u32::MAX ==> {
            let bytes = varint_attempt(item as nat);
            &&& r is Ok <==> item <= VARINT_MAX && bytes.len() <= old(dst).spare()
            &&& r is Err ==> r == Err::<(), EncodeError>(EncodeError::RemainingLengthTooHigh(item))
            &&& final(dst).contents() == old(dst).contents() + bytes.take(
                if bytes.len() <= old(dst).spare() {
                    bytes.len() as int
                } else {
                    old(dst).spare() as int
                },
            )
        },
        item <= VARINT_MAX && spec_encode_varint(item as nat).len() <= old(dst).spare() ==> r is Ok
            && final(dst).contents() == old(dst).contents() + spec_encode_varint(item as nat)
            && final(dst).spare() == old(dst).spare() - spec_encode_varint(item as nat).len(),
{
    if item > u32::MAX as usize {
        return Err(EncodeError::RemainingLengthTooHigh(item));
    }
    let r = encode_varint(item as u32, dst);
    proof {
        let bytes = varint_attempt(item as nat);
        if bytes.len() <= old(dst).spare() {
            assert(bytes.take(bytes.len() as int) =~= bytes);
        }
    }
    match r {
        Ok(()) => Ok(()),
        Err(_) => Err(EncodeError::RemainingLengthTooHigh(item)),
    }
}

/// Decodes the fixed header of an MQTT packet: the first byte and the remaining length.
///
/// `Ok(Some((first_byte, remaining_length, n)))` says that the header took the first `n`
/// bytes; `Ok(None)` that `src` ends before the header does.
pub open spec fn spec_decode_fixed_header(s: Seq<u8>) -> Result<Option<(u8, nat, nat)>, DecodeErrorView> {
    if s.len() == 0 {
        Ok(None)
    } else {
        match spec_decode_varint(s.skip(1)) {
            Ok(Some((v, n))) => Ok(Some((s[0], v as nat, n + 1))),
            Ok(None) => Ok(None),
            Err(e) => Err(e),
        }
    }
}

/// Decodes the fixed header of an MQTT packet, returning the first byte, the remaining length,
/// and the number of bytes the header took.
///
/// Ref:
/// - 3.1.1: 2 MQTT Control Packet format
/// - 5.0:   2 MQTT Control Packet format
pub fn decode_fixed_header(src: &[u8]) -> (r: Result<Option<(u8, usize, usize)>, DecodeError>)
    ensures
        match (r, spec_decode_fixed_header(src@)) {
            (Ok(None), Ok(None)) => true,
            (Ok(Some((b, l, n))), Ok(Some((sb, sl, sn)))) => b == sb && l == sl && n == sn,
            (Err(e), Err(se)) => e@ == se,
            _ => false,
        },
{
    if src.len() == 0 {
        return Ok(None);
    }
    let first_byte = src[0];
    let rest = vstd::slice::slice_subrange(src, 1, src.len());
    assert(rest@ =~= src@.skip(1));
    match decode_remaining_length(rest) {
        Ok(Some((remaining_length, n))) => Ok(Some((first_byte, remaining_length, n + 1))),
        Ok(None) => Ok(None),
        Err(e) => Err(e),
    }
}

// ---------------------------------------------------------------------------------------------
// Reading fixed-size values
// ---------------------------------------------------------------------------------------------

/// Reads a byte, or fails with `IncompletePacket`.
pub fn try_get_u8(src: &mut Shared) -> (r: Result<u8, DecodeError>)
    ensures
        old(src)@.len() < 1 ==> (r matches Err(DecodeError::IncompletePacket) && final(src)@ == old(src)@),
        old(src)@.len() >= 1 ==> r == Ok::<u8, DecodeError>(old(src)@[0]) && final(src)@ == old(src)@.skip(1),
{
    match src.get_u8() {
        Some(v) => Ok(v),
        None => Err(DecodeError::IncompletePacket),
    }
}

/// Reads a big-endian `u16`, or fails with `IncompletePacket`.
pub fn try_get_u16_be(src: &mut Shared) -> (r: Result<u16, DecodeError>)
    ensures
        old(src)@.len() < 2 ==> (r matches Err(DecodeError::IncompletePacket) && final(src)@ == old(src)@),
        old(src)@.len() >= 2 ==> r == Ok::<u16, DecodeError>(buffer_pool::be_u16(old(src)@)) && final(src)@
            == old(src)@.skip(2),
{
    match src.get_u16_be() {
        Some(v) => Ok(v),
        None => Err(DecodeError::IncompletePacket),
    }
}

/// Reads a big-endian `u32`, or fails with `IncompletePacket`.
pub fn try_get_u32_be(src: &mut Shared) -> (r: Result<u32, DecodeError>)
    ensures
        old(src)@.len() < 4 ==> (r matches Err(DecodeError::IncompletePacket) && final(src)@ == old(src)@),
        old(src)@.len() >= 4 ==> r == Ok::<u32, DecodeError>(buffer_pool::be_u32(old(src)@)) && final(src)@
            == old(src)@.skip(4),
{
    match src.get_u32_be() {
        Some(v) => Ok(v),
        None => Err(DecodeError::IncompletePacket),
    }
}

/// The result of reading a packet identifier from the start of `s`.
pub open spec fn spec_get_packet_identifier(s: Seq<u8>) -> Result<u16, DecodeErrorView> {
    if s.len() < 2 {
        Err(DecodeErrorView::IncompletePacket)
    } else if buffer_pool::be_u16(s) == 0 {
        Err(DecodeErrorView::ZeroPacketIdentifier)
    } else {
        Ok(buffer_pool::be_u16(s))
    }
}

/// Reads a packet identifier, which must not be zero.
pub fn try_get_packet_identifier(src: &mut Shared) -> (r: Result<PacketIdentifier, DecodeError>)
    ensures
        match (r, spec_get_packet_identifier(old(src)@)) {
            (Ok(p), Ok(sp)) => p@ == sp && final(src)@ == old(src)@.skip(2),
            (Err(e), Err(se)) => e@ == se,
            _ => false,
        },
{
    let raw = try_get_u16_be(src)?;
    match PacketIdentifier::new(raw) {
        Some(p) => Ok(p),
        None => Err(DecodeError::ZeroPacketIdentifier),
    }
}

} // verus!
