use ms_mqtt_client::buffer_pool::{Shared, SingleAccumulator};
use ms_mqtt_client::client::connection::{incoming_packet, IncomingStep};
use ms_mqtt_client::client::session::{Completion, NextRequest, OutgoingRequest, PendingRequests, Session};
use ms_mqtt_client::mqtt_proto::codes::{PubRecReasonCode, PubRelReasonCode, UnsubAckReasonCode};
use ms_mqtt_client::mqtt_proto::connack::{ConnAck, ConnAckOtherProperties, ConnectReasonCode};
use ms_mqtt_client::mqtt_proto::packet::Packet;
use ms_mqtt_client::mqtt_proto::property::{KeepAlive, NonZeroU16};
use ms_mqtt_client::mqtt_proto::pubrec::{PubRec, PubRecOtherProperties};
use ms_mqtt_client::mqtt_proto::pubrel::{PubRel, PubRelOtherProperties};
use ms_mqtt_client::mqtt_proto::unsuback::{UnsubAck, UnsubAckOtherProperties};
use ms_mqtt_client::mqtt_proto::{DecodeError, EncodeError, PacketIdentifier, ProtocolVersion};

fn pkid(raw: u16) -> PacketIdentifier {
    PacketIdentifier::new(raw).unwrap()
}

fn encode(packet: &Packet, version: ProtocolVersion) -> Result<Vec<u8>, EncodeError> {
    let mut acc = SingleAccumulator::new();
    packet.encode(&mut acc, version)?;
    Ok(acc.as_slice().to_vec())
}

fn decode(bytes: &[u8], version: ProtocolVersion) -> Result<Packet, DecodeError> {
    let mut src = Shared::copy_from_slice(bytes);
    Packet::decode_full(&mut src, version)
}

fn pubrec(reason_code: PubRecReasonCode) -> Packet {
    Packet::PubRec(PubRec {
        packet_identifier: pkid(1),
        reason_code,
        other_properties: PubRecOtherProperties { reason_string: None, user_properties: Vec::new() },
    })
}

fn unsuback(reason_codes: Vec<UnsubAckReasonCode>) -> Packet {
    Packet::UnsubAck(UnsubAck {
        packet_identifier: pkid(1),
        reason_codes,
        other_properties: UnsubAckOtherProperties { reason_string: None, user_properties: Vec::new() },
    })
}

#[test]
fn pubrec_encode_decode() {
    let p = pubrec(PubRecReasonCode::Success);
    let bytes = encode(&p, ProtocolVersion::V5).unwrap();
    assert_eq!(bytes, vec![0x50, 0x02, 0x00, 0x01]);
    assert_eq!(decode(&bytes, ProtocolVersion::V5).unwrap(), p);

    let p = pubrec(PubRecReasonCode::QuotaExceeded);
    let bytes = encode(&p, ProtocolVersion::V5).unwrap();
    assert_eq!(bytes, vec![0x50, 0x03, 0x00, 0x01, 0x97]);
    assert_eq!(decode(&bytes, ProtocolVersion::V5).unwrap(), p);
    assert!(matches!(
        encode(&p, ProtocolVersion::V3),
        Err(EncodeError::NegativePubRec(PubRecReasonCode::QuotaExceeded))
    ));
}

#[test]
fn pubrel_has_flags_2() {
    let p = Packet::PubRel(PubRel {
        packet_identifier: pkid(7),
        reason_code: PubRelReasonCode::PacketIdentifierNotFound,
        other_properties: PubRelOtherProperties { reason_string: None, user_properties: Vec::new() },
    });
    let bytes = encode(&p, ProtocolVersion::V5).unwrap();
    assert_eq!(bytes, vec![0x62, 0x03, 0x00, 0x07, 0x92]);
    assert_eq!(decode(&bytes, ProtocolVersion::V5).unwrap(), p);
    assert!(matches!(
        decode(&[0x60, 0x02, 0x00, 0x07], ProtocolVersion::V5),
        Err(DecodeError::UnrecognizedPacket { packet_type: 0x60, flags: 0, remaining_length: 2 })
    ));
}

#[test]
fn unsuback_encode_decode() {
    let p = unsuback(vec![UnsubAckReasonCode::Success, UnsubAckReasonCode::NoSubscriptionExisted]);
    let bytes = encode(&p, ProtocolVersion::V5).unwrap();
    assert_eq!(bytes, vec![0xB0, 0x05, 0x00, 0x01, 0x00, 0x00, 0x11]);
    assert_eq!(decode(&bytes, ProtocolVersion::V5).unwrap(), p);

    let v3 = encode(&p, ProtocolVersion::V3).unwrap();
    assert_eq!(v3, vec![0xB0, 0x02, 0x00, 0x01]);
    assert_eq!(decode(&v3, ProtocolVersion::V3).unwrap(), unsuback(Vec::new()));

    let failed = unsuback(vec![UnsubAckReasonCode::Success, UnsubAckReasonCode::NotAuthorized]);
    assert!(matches!(
        encode(&failed, ProtocolVersion::V3),
        Err(EncodeError::NegativeUnsubAck(UnsubAckReasonCode::NotAuthorized))
    ));
    assert!(matches!(
        decode(&[0xB0, 0x04, 0x00, 0x01, 0x00, 0x42], ProtocolVersion::V5),
        Err(DecodeError::UnrecognizedUnsubAckReasonCode(0x42))
    ));
}

fn connected_session(max: u16) -> Session {
    let mut session = Session::new(pkid(max));
    let connack = ConnAck {
        reason_code: ConnectReasonCode::Success { session_present: true },
        other_properties: ConnAckOtherProperties::default(),
    };
    assert!(session.incoming_connack(&connack, KeepAlive::Infinite).is_empty());
    session
}

#[test]
fn unsuback_completes_unsubscribe() {
    let mut session = connected_session(4);
    let id = session.lease_packet_identifier().unwrap();
    session.outgoing_request(OutgoingRequest::Unsubscribe(id.get()));
    let p = Packet::UnsubAck(UnsubAck {
        packet_identifier: id,
        reason_codes: vec![UnsubAckReasonCode::Success],
        other_properties: UnsubAckOtherProperties { reason_string: None, user_properties: Vec::new() },
    });
    assert!(matches!(incoming_packet(&mut session, p), IncomingStep::Completed(Completion::Unsubscribe(x)) if x == id.get()));
}

fn pending() -> PendingRequests {
    PendingRequests {
        disconnect: false,
        acknowledgement: false,
        reauth: false,
        subscribe: false,
        publish_qos0: false,
        publish_qos12: false,
        ping_due: false,
    }
}

#[test]
fn next_request_priority_and_waiting() {
    let mut session = connected_session(1);
    let all = PendingRequests { disconnect: true, acknowledgement: true, ..pending() };
    assert_eq!(session.next_request(all), NextRequest::Disconnect);
    let subscribe_and_ping = PendingRequests { subscribe: true, ping_due: true, ..pending() };
    assert_eq!(session.next_request(subscribe_and_ping), NextRequest::Subscribe(pkid(1)));
    // Every identifier is in use: the subscription waits, and a QoS 0 PUBLISH goes first.
    let both = PendingRequests { subscribe: true, publish_qos0: true, ..pending() };
    assert_eq!(session.next_request(both), NextRequest::PublishQoS0);
    assert_eq!(session.next_request(PendingRequests { publish_qos12: true, ..pending() }), NextRequest::Wait);
    assert_eq!(session.next_request(PendingRequests { publish_qos12: true, ping_due: true, ..pending() }), NextRequest::PingReq);
}

#[test]
fn nonzero_values() {
    assert!(NonZeroU16::new(0).is_none());
    assert_eq!(NonZeroU16::new(9).unwrap().get(), 9);
    assert_eq!(KeepAlive::from_u16(0), KeepAlive::Infinite);
    assert_eq!(KeepAlive::from_u16(30).to_u16(), 30);
}
