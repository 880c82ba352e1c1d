use ms_mqtt_client::buffer_pool::{BytesAccumulator, BytesAccumulatorImpl, Owned, Shared, SingleAccumulator};
use ms_mqtt_client::mqtt_proto::auth::Auth;
use ms_mqtt_client::mqtt_proto::binary_data::{binary_data, BinaryData};
use ms_mqtt_client::mqtt_proto::byte_str::ByteStr;
use ms_mqtt_client::mqtt_proto::codes::{ConnectionRefusedReason, DisconnectReasonCode};
use ms_mqtt_client::mqtt_proto::connack::{ConnAck, ConnAckOtherProperties, ConnectReasonCode};
use ms_mqtt_client::mqtt_proto::disconnect::{Disconnect, DisconnectOtherProperties};
use ms_mqtt_client::mqtt_proto::filter::{filter, filter_owned, filter_str, ClassifiedFilter, FilterKind};
use ms_mqtt_client::mqtt_proto::packet::Packet;
use ms_mqtt_client::mqtt_proto::property::{correlation_data, CorrelationData, SessionExpiryInterval};
use ms_mqtt_client::mqtt_proto::publish::{Publish, PublishOtherProperties};
use ms_mqtt_client::mqtt_proto::topic::{topic, topic_str};
use ms_mqtt_client::mqtt_proto::{
    decode_varint, encode_remaining_length, encode_varint, DecodeError, EncodeError,
    PacketIdentifierDupQoS, ProtocolVersion, DEFAULT_REMAINING_LENGTH_FIELD_MAX_LENGTH,
};

fn byte_str(s: &str) -> ByteStr {
    ByteStr::from_str(s).unwrap()
}

fn encode(packet: &Packet, version: ProtocolVersion) -> Shared {
    let mut acc = SingleAccumulator::new();
    packet.encode(&mut acc, version).unwrap();
    acc.freeze()
}

fn decode(src: &mut Shared, version: ProtocolVersion) -> Packet {
    Packet::decode_full(src, version).unwrap()
}

fn create_packet_as_shared(first_byte: u8, body: &[u8]) -> Shared {
    let mut bytes = vec![first_byte, body.len() as u8];
    bytes.extend_from_slice(body);
    Shared::copy_from_slice(&bytes)
}

fn accumulated(acc: &BytesAccumulatorImpl) -> Vec<u8> {
    let mut out = Vec::new();
    for i in 0..acc.num_chunks() {
        out.extend_from_slice(acc.chunk(i));
    }
    out
}

// ----- varints -----

fn varint_encode_inner_ok(value: u32, expected: &[u8]) {
    // Can't encode into a buffer with no unfilled space left
    let mut bytes = BytesAccumulatorImpl::new(Owned::with_capacity(0));
    assert!(matches!(encode_varint(value, &mut bytes), Err(EncodeError::InsufficientBuffer)));

    // Can encode into a buffer with unfilled space left and no filled space
    let mut bytes = BytesAccumulatorImpl::new(Owned::with_capacity(8));
    encode_varint(value, &mut bytes).unwrap();
    bytes.put_done();
    assert_eq!(accumulated(&bytes), expected);

    // Can encode into a buffer with unfilled space left and some filled space
    let mut bytes = BytesAccumulatorImpl::new(Owned::with_capacity(8));
    bytes.try_put_slice(&[0x00; 3][..]).unwrap();
    encode_varint(value, &mut bytes).unwrap();
    bytes.put_done();
    assert_eq!(accumulated(&bytes)[3..], *expected);
}

fn varint_encode_inner_too_high(value: u32) {
    let mut bytes = BytesAccumulatorImpl::new(Owned::with_capacity(8));
    assert!(matches!(encode_varint(value, &mut bytes), Err(EncodeError::VarintTooHigh(v)) if v == value));
}

fn remaining_length_encode_inner_too_high(value: usize) {
    let mut bytes = BytesAccumulatorImpl::new(Owned::with_capacity(8));
    assert!(matches!(encode_remaining_length(value, &mut bytes), Err(EncodeError::RemainingLengthTooHigh(v)) if v == value));
}

#[test]
fn varint_encode() {
    varint_encode_inner_ok(0x00, &[0x00]);
    varint_encode_inner_ok(0x01, &[0x01]);

    varint_encode_inner_ok(0x7F, &[0x7F]);
    varint_encode_inner_ok(0x80, &[0x80, 0x01]);
    varint_encode_inner_ok(0x3FFF, &[0xFF, 0x7F]);
    varint_encode_inner_ok(0x4000, &[0x80, 0x80, 0x01]);
    varint_encode_inner_ok(0x001F_FFFF, &[0xFF, 0xFF, 0x7F]);
    varint_encode_inner_ok(0x0020_0000, &[0x80, 0x80, 0x80, 0x01]);
    varint_encode_inner_ok(0x0FFF_FFFF, &[0xFF, 0xFF, 0xFF, 0x7F]);

    varint_encode_inner_too_high(0x1000_0000);
    varint_encode_inner_too_high(0xFFFF_FFFF);

    if usize::BITS == 64 {
        remaining_length_encode_inner_too_high((0xFFFF_FFFFu64 + 1) as usize);
        remaining_length_encode_inner_too_high(0xFFFF_FFFF_FFFF_FFFFu64 as usize);
    }
}

fn varint_decode_inner_ok(bytes: &[u8], expected: u32) {
    let actual = decode_varint(bytes).unwrap();
    assert_eq!(actual, Some((expected, bytes.len())));
}

fn varint_decode_inner_too_high(bytes: &[u8]) {
    assert!(matches!(decode_varint(bytes), Err(DecodeError::VarintTooHigh)));
}

fn varint_decode_inner_incomplete_packet(bytes: &[u8]) {
    let actual = decode_varint(bytes).unwrap();
    assert_eq!(actual, None);
}

#[test]
fn varint_decode() {
    varint_decode_inner_ok(&[0x00], 0x00);
    varint_decode_inner_ok(&[0x01], 0x01);

    varint_decode_inner_ok(&[0x7F], 0x7F);
    varint_decode_inner_ok(&[0x80, 0x01], 0x80);
    varint_decode_inner_ok(&[0xFF, 0x7F], 0x3FFF);
    varint_decode_inner_ok(&[0x80, 0x80, 0x01], 0x4000);
    varint_decode_inner_ok(&[0xFF, 0xFF, 0x7F], 0x001F_FFFF);
    varint_decode_inner_ok(&[0x80, 0x80, 0x80, 0x01], 0x0020_0000);
    varint_decode_inner_ok(&[0xFF, 0xFF, 0xFF, 0x7F], 0x0FFF_FFFF);

    // Longer-than-necessary encodings are not disallowed by the spec
    varint_decode_inner_ok(&[0x81, 0x00], 0x01);
    varint_decode_inner_ok(&[0x81, 0x80, 0x00], 0x01);
    varint_decode_inner_ok(&[0x81, 0x80, 0x80, 0x00], 0x01);

    varint_decode_inner_too_high(&[0x80; DEFAULT_REMAINING_LENGTH_FIELD_MAX_LENGTH]);
    varint_decode_inner_too_high(&[0xFF; DEFAULT_REMAINING_LENGTH_FIELD_MAX_LENGTH]);

    varint_decode_inner_incomplete_packet(&[0x80]);
    varint_decode_inner_incomplete_packet(&[0x80, 0x80]);
    varint_decode_inner_incomplete_packet(&[0x80, 0x80, 0x80]);
}

// ----- AUTH -----

#[test]
fn decode_v3_fails() {
    let mut buf = binary_data(b"\x00\x00").into_shared();
    assert!(matches!(
        Auth::decode(0, &mut buf, ProtocolVersion::V3),
        Err(DecodeError::UnrecognizedPacket { packet_type: 0xF0, flags: 0x00, remaining_length: 4 })
    ));
}

// ----- binary data -----

#[test]
fn test_binary_data() {
    let s = "hello world";
    let b = binary_data(s.as_bytes());
    assert_eq!(b.as_bytes(), s.as_bytes());
}

fn to_shared(data: &[u8]) -> Shared {
    Shared::copy_from_slice(data)
}

#[test]
fn test_binary_data_display() {
    let b = binary_data(b"hello world");
    assert_eq!(b.to_string(), "BinaryData(SharedImpl(b\"\\0\\x0bhello world\"))");
}

#[test]
fn binary_data_display_escapes() {
    let b = binary_data(b"a\n\r\t\\\"\x7f\xff~");
    assert_eq!(b.to_string(), "BinaryData(SharedImpl(b\"\\0\\ta\\n\\r\\t\\\\\\\"\\x7f\\xff~\"))");
}

#[test]
fn test_binary_data_from_shared_with_trailing_garbage() {
    let s = to_shared(b"\x00\x01hello world");
    let actual = BinaryData::from_shared(s);
    assert!(matches!(actual, Err(DecodeError::TrailingGarbage)));
}

#[test]
fn test_binary_data_from_shared_with_incomplete_packet() {
    let s = to_shared(b"\x01\x00hello world");
    let actual = BinaryData::from_shared(s);
    assert!(matches!(actual, Err(DecodeError::IncompletePacket)));
}

#[test]
fn test_binary_data_from_shared_with_empty() {
    let s = to_shared(b"\x00\x00");
    let actual = BinaryData::from_shared(s);
    assert!(matches!(actual, Ok(_)));
}

#[test]
fn test_binary_data_from_shared_simple() {
    let s = to_shared(b"\x00\x0bhello world");
    let actual = BinaryData::from_shared(s);
    assert!(matches!(actual, Ok(_)));
}

// ----- CONNACK -----

const ALL_REFUSED_REASONS: [ConnectionRefusedReason; 21] = [
    ConnectionRefusedReason::UnspecifiedError,
    ConnectionRefusedReason::MalformedPacket,
    ConnectionRefusedReason::ProtocolError,
    ConnectionRefusedReason::ImplementationSpecificError,
    ConnectionRefusedReason::UnsupportedProtocolVersion,
    ConnectionRefusedReason::ClientIdentifierNotValid,
    ConnectionRefusedReason::BadUserNameOrPassword,
    ConnectionRefusedReason::NotAuthorized,
    ConnectionRefusedReason::ServerUnavailable,
    ConnectionRefusedReason::ServerBusy,
    ConnectionRefusedReason::Banned,
    ConnectionRefusedReason::BadAuthenticationMethod,
    ConnectionRefusedReason::TopicNameInvalid,
    ConnectionRefusedReason::PacketTooLarge,
    ConnectionRefusedReason::QuotaExceeded,
    ConnectionRefusedReason::PayloadFormatInvalid,
    ConnectionRefusedReason::RetainNotSupported,
    ConnectionRefusedReason::QoSNotSupported,
    ConnectionRefusedReason::UseAnotherServer,
    ConnectionRefusedReason::ServerMoved,
    ConnectionRefusedReason::ConnectionRateExceeded,
];

#[test]
fn connack_encode_decode_all_the_codes() {
    for code in ALL_REFUSED_REASONS {
        let packet = Packet::ConnAck(ConnAck {
            reason_code: ConnectReasonCode::Refused(code),
            other_properties: Default::default(),
        });

        let mut encoding = encode(&packet, ProtocolVersion::V5);
        println!("encoded packet: {encoding:?}");
        let decoded_packet = decode(&mut encoding, ProtocolVersion::V5);

        assert_eq!(packet, decoded_packet);
    }
}

#[test]
fn connack_zero_session_expiry_interval() {
    let mut src = create_packet_as_shared(0x20, &[0x00, 0x00, 0x05, 0x11, 0x00, 0x00, 0x00, 0x00]);
    let packet = decode(&mut src, ProtocolVersion::V5);

    assert!(matches!(
        &packet,
        Packet::ConnAck(ConnAck {
            reason_code: ConnectReasonCode::Success { session_present: false },
            other_properties: ConnAckOtherProperties {
                session_expiry_interval: Some(SessionExpiryInterval::Duration(0)),
                ..
            },
        })
    ));

    let encoded_packet = encode(&packet, ProtocolVersion::V5);
    assert_eq!(encoded_packet.as_slice(), &[0x20, 0x08, 0x00, 0x00, 0x05, 0x11, 0x00, 0x00, 0x00, 0x00]);
}

// ----- DISCONNECT -----

const ALL_DISCONNECT_REASONS: [DisconnectReasonCode; 29] = [
    DisconnectReasonCode::Normal,
    DisconnectReasonCode::DisconnectWithWillMessage,
    DisconnectReasonCode::UnspecifiedError,
    DisconnectReasonCode::MalformedPacket,
    DisconnectReasonCode::ProtocolError,
    DisconnectReasonCode::ImplementationSpecificError,
    DisconnectReasonCode::NotAuthorized,
    DisconnectReasonCode::ServerBusy,
    DisconnectReasonCode::ServerShuttingDown,
    DisconnectReasonCode::KeepAliveTimeout,
    DisconnectReasonCode::SessionTakenOver,
    DisconnectReasonCode::TopicFilterInvalid,
    DisconnectReasonCode::TopicNameInvalid,
    DisconnectReasonCode::ReceiveMaximumExceeded,
    DisconnectReasonCode::TopicAliasInvalid,
    DisconnectReasonCode::PacketTooLarge,
    DisconnectReasonCode::MessageRateTooHigh,
    DisconnectReasonCode::QuotaExceeded,
    DisconnectReasonCode::AdministrativeAction,
    DisconnectReasonCode::PayloadFormatInvalid,
    DisconnectReasonCode::RetainNotSupported,
    DisconnectReasonCode::QosNotSupported,
    DisconnectReasonCode::UseAnotherServer,
    DisconnectReasonCode::ServerMoved,
    DisconnectReasonCode::SharedSubscriptionsNotSupported,
    DisconnectReasonCode::ConnectionRateExceeded,
    DisconnectReasonCode::MaximumConnectTime,
    DisconnectReasonCode::SubscriptionIdentifiersNotSupported,
    DisconnectReasonCode::WildcardSubscriptionsNotSupported,
];

#[test]
fn disconnect_encode_decode_all_the_codes() {
    for code in ALL_DISCONNECT_REASONS {
        let packet = Packet::Disconnect(Disconnect {
            reason_code: code,
            other_properties: DisconnectOtherProperties {
                session_expiry_interval: Some(SessionExpiryInterval::Duration(1)),
                reason_string: Some(byte_str("just cause")),
                user_properties: vec![(byte_str("key"), byte_str("value"))],
                server_reference: Some(byte_str("server")),
            },
        });

        let mut encoding = encode(&packet, ProtocolVersion::V5);
        println!("encoded packet: {encoding:?}");
        let decoded_packet = decode(&mut encoding, ProtocolVersion::V5);

        assert_eq!(packet, decoded_packet);
    }
}

#[test]
fn no_properties_and_no_properties_length() {
    let mut src = create_packet_as_shared(0xE0, &[0x04]);
    let packet = decode(&mut src, ProtocolVersion::V5);

    assert!(matches!(
        &packet,
        Packet::Disconnect(Disconnect { reason_code: DisconnectReasonCode::DisconnectWithWillMessage, .. })
    ));

    let encoded_packet = encode(&packet, ProtocolVersion::V5);
    assert_eq!(encoded_packet.as_slice(), &[0xE0, 0x01, 0x04]);
}

#[test]
fn no_properties_and_explicit_properties_length() {
    let mut src = create_packet_as_shared(0xE0, &[0x04, 0x00]);
    let packet = decode(&mut src, ProtocolVersion::V5);
    assert!(matches!(
        &packet,
        Packet::Disconnect(Disconnect { reason_code: DisconnectReasonCode::DisconnectWithWillMessage, .. })
    ));

    let encoded_packet = encode(&packet, ProtocolVersion::V5);
    assert_eq!(encoded_packet.as_slice(), &[0xE0, 0x01, 0x04]);
}

#[test]
fn some_properties() {
    let mut src = create_packet_as_shared(0xE0, &[0x04, 0x05, 0x11, 0xFF, 0xFF, 0xFF, 0xFF]);
    let packet = decode(&mut src, ProtocolVersion::V5);

    assert!(matches!(
        &packet,
        Packet::Disconnect(Disconnect {
            reason_code: DisconnectReasonCode::DisconnectWithWillMessage,
            other_properties: DisconnectOtherProperties {
                session_expiry_interval: Some(SessionExpiryInterval::Infinite),
                ..
            },
        })
    ));

    let encoded_packet = encode(&packet, ProtocolVersion::V5);
    assert_eq!(encoded_packet.as_slice(), &[0xE0, 0x07, 0x04, 0x05, 0x11, 0xFF, 0xFF, 0xFF, 0xFF]);
}

#[test]
fn disconnect_zero_session_expiry_interval() {
    let mut src = create_packet_as_shared(0xE0, &[0x04, 0x05, 0x11, 0x00, 0x00, 0x00, 0x00]);
    let packet = decode(&mut src, ProtocolVersion::V5);

    assert!(matches!(
        &packet,
        Packet::Disconnect(Disconnect {
            reason_code: DisconnectReasonCode::DisconnectWithWillMessage,
            other_properties: DisconnectOtherProperties {
                session_expiry_interval: Some(SessionExpiryInterval::Duration(0)),
                ..
            },
        })
    ));

    let encoded_packet = encode(&packet, ProtocolVersion::V5);
    assert_eq!(encoded_packet.as_slice(), &[0xE0, 0x07, 0x04, 0x05, 0x11, 0x00, 0x00, 0x00, 0x00]);
}

// ----- filters and topics -----

#[test]
fn filter_of_byte_str() {
    let filter = filter("/a/b/c");
    assert_eq!(filter.as_str(), "/a/b/c");

    let parts = filter.iter();
    assert_eq!(parts[2], "b");
}

#[test]
fn shared_subscription_valid() {
    let filter = filter_str("$share/group1/mytopic");
    let classified_filter = filter.classify();
    match classified_filter {
        ClassifiedFilter::Shared { group_name, filter } => {
            assert_eq!(group_name, "group1");
            assert_eq!(filter.as_str(), "mytopic");
            assert_eq!(filter.kind(), FilterKind::Regular);
        }
        _ => panic!("Expected filter of type: Shared"),
    }
}

#[test]
fn create() {
    let topic = topic("a/b/c");
    assert!(topic.iter().into_iter().eq(["a", "b", "c"]));
}

#[test]
fn topic_of_byte_str() {
    let topic = topic("/a/b/c");
    assert_eq!(topic.as_str(), "/a/b/c");

    let parts = topic.iter();
    assert_eq!(parts[2], "b");
}

// ----- PUBLISH -----

#[test]
fn test_to_shared() {
    let publish = Publish {
        topic_name: topic("kittens"),
        packet_identifier_dup_qos: PacketIdentifierDupQoS::AtMostOnce,
        retain: false,
        payload: Shared::copy_from_slice(b"meow"),
        other_properties: PublishOtherProperties {
            response_topic: Some(topic("cute")),
            user_properties: vec![(byte_str("genus"), byte_str("felix"))],
            correlation_data: Some(CorrelationData::Variable(binary_data(b"corr_data"))),
            ..Default::default()
        },
    };

    let mut owned = Owned::with_capacity(0);

    let publish_shared = publish.to_shared(&mut owned).unwrap();

    assert_eq!(publish, publish_shared);
}

#[test]
fn correlation_data_holds_its_bytes() {
    assert!(matches!(correlation_data(b"abc"), CorrelationData::Variable(_)));
    assert_eq!(correlation_data(b"12345678"), CorrelationData::Fixed8(*b"12345678"));
    assert_ne!(correlation_data(b"abc"), CorrelationData::Fixed8(*b"abcdefgh"));
}

#[test]
fn test_helpers_build_the_same_values() {
    assert_eq!(filter_owned("a/+/#"), filter("a/+/#"));
    assert_eq!(topic_str("a/b"), topic("a/b"));
}
