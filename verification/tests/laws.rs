use ms_mqtt_client::buffer_pool::{Shared, SingleAccumulator};
use ms_mqtt_client::client::pkid::PkidPool;
use ms_mqtt_client::fuzz;
use ms_mqtt_client::mqtt_proto::byte_str::ByteStr;
use ms_mqtt_client::mqtt_proto::binary_data::binary_data;
use ms_mqtt_client::mqtt_proto::codes::{PubAckReasonCode, QoS, RetainHandling, SubscribeReasonCode};
use ms_mqtt_client::mqtt_proto::connack::{ConnAck, ConnAckOtherProperties, ConnectReasonCode};
use ms_mqtt_client::mqtt_proto::codes::ConnectionRefusedReason;
use ms_mqtt_client::mqtt_proto::filter::filter;
use ms_mqtt_client::mqtt_proto::packet::Packet;
use ms_mqtt_client::mqtt_proto::property::{CorrelationData, KeepAlive, NonZeroU16, NonZeroU32, SessionExpiryInterval};
use ms_mqtt_client::mqtt_proto::puback::{PubAck, PubAckOtherProperties};
use ms_mqtt_client::mqtt_proto::publish::{Publish, PublishOtherProperties};
use ms_mqtt_client::mqtt_proto::suback::{SubAck, SubAckOtherProperties};
use ms_mqtt_client::mqtt_proto::subscribe::{
    Subscribe, SubscribeOptions, SubscribeOptionsOtherProperties, SubscribeOtherProperties, SubscribeTo,
};
use ms_mqtt_client::mqtt_proto::topic::topic;
use ms_mqtt_client::mqtt_proto::unsubscribe::{Unsubscribe, UnsubscribeOtherProperties};
use ms_mqtt_client::mqtt_proto::{EncodeError, PacketIdentifier, PacketIdentifierDupQoS, ProtocolVersion};

fn byte_str(s: &str) -> ByteStr {
    ByteStr::from_str(s).unwrap()
}

fn pkid(raw: u16) -> PacketIdentifier {
    PacketIdentifier::new(raw).unwrap()
}

fn encode(packet: &Packet, version: ProtocolVersion) -> Result<Shared, EncodeError> {
    let mut acc = SingleAccumulator::new();
    packet.encode(&mut acc, version)?;
    Ok(acc.freeze())
}

fn roundtrip(packet: &Packet, version: ProtocolVersion) -> Packet {
    let mut bytes = encode(packet, version).unwrap();
    Packet::decode_full(&mut bytes, version).unwrap()
}

fn subscribe_options(qos: QoS, no_local: bool) -> SubscribeOptions {
    SubscribeOptions {
        maximum_qos: qos,
        other_properties: SubscribeOptionsOtherProperties {
            no_local,
            retain_as_published: false,
            retain_handling: RetainHandling::DoNotSend,
        },
    }
}

fn publish() -> Publish {
    Publish {
        topic_name: topic("sport/tennis"),
        packet_identifier_dup_qos: PacketIdentifierDupQoS::AtLeastOnce(pkid(7), true),
        retain: true,
        payload: Shared::copy_from_slice(b"ace"),
        other_properties: PublishOtherProperties {
            payload_is_utf8: true,
            message_expiry_interval: Some(60),
            topic_alias: NonZeroU16::new(3),
            response_topic: Some(topic("reply/here")),
            correlation_data: Some(CorrelationData::Variable(binary_data(b"id-1"))),
            user_properties: vec![(byte_str("k"), byte_str("v")), (byte_str("k"), byte_str("w"))],
            subscription_identifiers: vec![1, 268_435_455],
            content_type: Some(byte_str("text/plain")),
        },
    }
}

#[test]
fn publish_decodes_as_encoded_v5() {
    let packet = Packet::Publish(publish());
    assert_eq!(roundtrip(&packet, ProtocolVersion::V5), packet);
}

#[test]
fn publish_v3_drops_properties() {
    let packet = Packet::Publish(publish());
    let expected = Packet::Publish(Publish { other_properties: Default::default(), ..publish() });
    assert_eq!(roundtrip(&packet, ProtocolVersion::V3), expected);
}

fn subscribe(no_local: bool) -> Subscribe {
    Subscribe {
        packet_identifier: pkid(9),
        subscribe_to: vec![
            SubscribeTo { topic_filter: filter("sport/+/player1"), options: subscribe_options(QoS::AtLeastOnce, no_local) },
            SubscribeTo { topic_filter: filter("$share/group/#"), options: subscribe_options(QoS::ExactlyOnce, false) },
        ],
        other_properties: SubscribeOtherProperties {
            subscription_identifier: Some(42),
            user_properties: vec![(byte_str("a"), byte_str("b"))],
        },
    }
}

#[test]
fn subscribe_decodes_as_encoded_v5() {
    let packet = Packet::Subscribe(subscribe(true));
    assert_eq!(roundtrip(&packet, ProtocolVersion::V5), packet);
}

#[test]
fn subscribe_v3_keeps_only_maximum_qos() {
    let decoded = roundtrip(&Packet::Subscribe(subscribe(true)), ProtocolVersion::V3);
    match decoded {
        Packet::Subscribe(s) => {
            assert_eq!(s.subscribe_to.len(), 2);
            assert_eq!(s.subscribe_to[0].options.maximum_qos, QoS::AtLeastOnce);
            assert!(!s.subscribe_to[0].options.other_properties.no_local);
            assert!(s.subscribe_to[0].options.other_properties.retain_as_published);
            assert_eq!(s.subscribe_to[0].options.other_properties.retain_handling, RetainHandling::Send);
            assert_eq!(s.other_properties.subscription_identifier, None);
            assert!(s.other_properties.user_properties.is_empty());
        }
        _ => panic!("expected a SUBSCRIBE"),
    }
}

#[test]
fn suback_v3_carries_plain_failures() {
    let packet = Packet::SubAck(SubAck {
        packet_identifier: pkid(2),
        reason_codes: vec![SubscribeReasonCode::GrantedQoS1, SubscribeReasonCode::NotAuthorized],
        other_properties: SubAckOtherProperties { reason_string: Some(byte_str("no")), user_properties: vec![] },
    });
    assert_eq!(roundtrip(&packet, ProtocolVersion::V5), packet);
    let expected = Packet::SubAck(SubAck {
        packet_identifier: pkid(2),
        reason_codes: vec![SubscribeReasonCode::GrantedQoS1, SubscribeReasonCode::UnspecifiedError],
        other_properties: SubAckOtherProperties { reason_string: None, user_properties: vec![] },
    });
    assert_eq!(roundtrip(&packet, ProtocolVersion::V3), expected);
}

#[test]
fn unsubscribe_decodes_as_encoded() {
    let packet = Packet::Unsubscribe(Unsubscribe {
        packet_identifier: pkid(65535),
        unsubscribe_from: vec![filter("a/b"), filter("#")],
        other_properties: UnsubscribeOtherProperties { user_properties: vec![(byte_str("x"), byte_str(""))] },
    });
    assert_eq!(roundtrip(&packet, ProtocolVersion::V5), packet);
}

#[test]
fn connack_with_properties_decodes_as_encoded() {
    let packet = Packet::ConnAck(ConnAck {
        reason_code: ConnectReasonCode::Success { session_present: true },
        other_properties: ConnAckOtherProperties {
            session_expiry_interval: Some(SessionExpiryInterval::Infinite),
            receive_maximum: NonZeroU16::new(10).unwrap(),
            maximum_qos: QoS::AtLeastOnce,
            retain_available: false,
            maximum_packet_size: NonZeroU32::new(1024).unwrap(),
            assigned_client_id: Some(byte_str("client-7")),
            topic_alias_maximum: 5,
            reason_string: Some(byte_str("welcome")),
            user_properties: vec![(byte_str("region"), byte_str("eu"))],
            wildcard_subscription_available: false,
            shared_subscription_available: false,
            subscription_identifiers_available: false,
            server_keep_alive: Some(KeepAlive::from_u16(30)),
            response_information: Some(byte_str("info")),
            server_reference: Some(byte_str("other")),
            authentication: None,
        },
    });
    assert_eq!(roundtrip(&packet, ProtocolVersion::V5), packet);
}

#[test]
fn connack_v3_refusal_without_v3_code_becomes_server_unavailable() {
    let packet = Packet::ConnAck(ConnAck {
        reason_code: ConnectReasonCode::Refused(ConnectionRefusedReason::Banned),
        other_properties: Default::default(),
    });
    let expected = Packet::ConnAck(ConnAck {
        reason_code: ConnectReasonCode::Refused(ConnectionRefusedReason::ServerUnavailable),
        other_properties: Default::default(),
    });
    assert_eq!(roundtrip(&packet, ProtocolVersion::V3), expected);
}

#[test]
fn puback_v3_cannot_carry_a_failure() {
    let packet = Packet::PubAck(PubAck {
        packet_identifier: pkid(4),
        reason_code: PubAckReasonCode::NotAuthorized,
        other_properties: PubAckOtherProperties { reason_string: None, user_properties: vec![] },
    });
    assert!(matches!(
        encode(&packet, ProtocolVersion::V3),
        Err(EncodeError::NegativePubAck(PubAckReasonCode::NotAuthorized))
    ));
    assert_eq!(roundtrip(&packet, ProtocolVersion::V5), packet);
}

/// Inputs that decode, some of them in forms the encoder would not produce.
const DECODABLE: [&[u8]; 6] = [
    // DISCONNECT with an explicit empty property section
    &[0xE0, 0x02, 0x04, 0x00],
    // PINGREQ with an over-long remaining length
    &[0xC0, 0x80, 0x00],
    // CONNACK with a receive maximum equal to the default
    &[0x20, 0x06, 0x00, 0x00, 0x03, 0x21, 0xFF, 0xFF],
    // AUTH with an empty body
    &[0xF0, 0x00],
    // PUBLISH at QoS 0 with a subscription identifier in an over-long form
    &[0x30, 0x0B, 0x00, 0x01, b'a', 0x03, 0x0B, 0x81, 0x00, b'h', b'e', b'y', b'!'],
    // SUBACK
    &[0x90, 0x04, 0x00, 0x01, 0x00, 0x02],
];

#[test]
fn decoded_packets_encode_and_decode_again() {
    for data in DECODABLE {
        let mut src = Shared::copy_from_slice(data);
        let packet = Packet::decode_full(&mut src, ProtocolVersion::V5).unwrap();
        let mut again = encode(&packet, ProtocolVersion::V5).unwrap();
        assert!(again.len() <= data.len() + 2);
        assert_eq!(Packet::decode_full(&mut again, ProtocolVersion::V5).unwrap(), packet);
        fuzz::roundtrip(data);
    }
}

#[test]
fn defaults_are_not_encoded_again() {
    let data: &[u8] = &[0x20, 0x06, 0x00, 0x00, 0x03, 0x21, 0xFF, 0xFF];
    let mut src = Shared::copy_from_slice(data);
    let packet = Packet::decode_full(&mut src, ProtocolVersion::V5).unwrap();
    let again = encode(&packet, ProtocolVersion::V5).unwrap();
    assert_eq!(again.as_slice(), &[0x20, 0x03, 0x00, 0x00, 0x00]);
}

#[test]
fn pool_leases_free_identifiers_until_full() {
    let mut pool = PkidPool::new(pkid(3));
    let a = pool.lease_next_pkid().unwrap();
    let b = pool.lease_next_pkid().unwrap();
    let c = pool.lease_next_pkid().unwrap();
    assert!(a != b && b != c && a != c);
    assert_eq!(pool.lease_next_pkid(), None);
    assert!(pool.release_pkid(b));
    assert_eq!(pool.lease_next_pkid(), Some(b));
}

#[test]
fn subscribe_options_byte_encodes_back() {
    for b in 0u8..=255 {
        let mut src = Shared::copy_from_slice(&[b]);
        match SubscribeOptions::decode(&mut src, ProtocolVersion::V5) {
            Ok(o) => {
                assert_eq!(o.to_u8(ProtocolVersion::V5), b);
                assert_eq!(src.len(), 0);
            }
            Err(e) => {
                let expected = if b & 0x03 == 0x03 {
                    ms_mqtt_client::mqtt_proto::DecodeError::UnrecognizedQoS(3)
                } else if b & 0x30 == 0x30 {
                    ms_mqtt_client::mqtt_proto::DecodeError::UnrecognizedRetainHandling(3)
                } else {
                    assert!(b & 0xC0 != 0);
                    ms_mqtt_client::mqtt_proto::DecodeError::SubscriptionOptionsReservedSet
                };
                assert_eq!(e, expected);
            }
        }
        let mut src = Shared::copy_from_slice(&[b]);
        match SubscribeOptions::decode(&mut src, ProtocolVersion::V3) {
            Ok(o) => {
                assert!(b <= 2);
                assert_eq!(o.to_u8(ProtocolVersion::V3), b);
            }
            Err(e) => {
                assert!(b > 2);
                assert_eq!(e, ms_mqtt_client::mqtt_proto::DecodeError::UnrecognizedQoS(b));
            }
        }
    }
}
