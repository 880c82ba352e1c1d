use ms_mqtt_client::client::connect::{connect_outcome, ConnectOutcome};
use ms_mqtt_client::client::connection::{incoming_packet, IncomingStep};
use ms_mqtt_client::error::ConnectError;
use ms_mqtt_client::mqtt_proto::codes::SubscribeReasonCode;
use ms_mqtt_client::mqtt_proto::packet::Packet;
use ms_mqtt_client::mqtt_proto::pingresp::PingResp;
use ms_mqtt_client::mqtt_proto::suback::{SubAck, SubAckOtherProperties};
use ms_mqtt_client::client::session::{
    AcknowledgementKind, AcknowledgementRequest, AcknowledgementRoute, AuthOutcome, Cancellation,
    CompletedOperation, Completion, IncomingDelivery, OutgoingRequest, QueuedPacket,
    ReadyAcknowledgement, Session,
};
use ms_mqtt_client::error::{ProtocolError, ProtocolErrorRepr};
use ms_mqtt_client::mqtt_proto::auth::Auth;
use ms_mqtt_client::mqtt_proto::codes::AuthenticateReasonCode;
use ms_mqtt_client::mqtt_proto::connack::{ConnAck, ConnAckOtherProperties, ConnectReasonCode};
use ms_mqtt_client::mqtt_proto::disconnect::{Disconnect, DisconnectOtherProperties};
use ms_mqtt_client::mqtt_proto::codes::DisconnectReasonCode;
use ms_mqtt_client::mqtt_proto::property::{KeepAlive, SessionExpiryInterval};
use ms_mqtt_client::mqtt_proto::{PacketIdentifier, PacketIdentifierDupQoS};

fn pkid(raw: u16) -> PacketIdentifier {
    PacketIdentifier::new(raw).unwrap()
}

fn connack(session_present: bool) -> ConnAck {
    ConnAck {
        reason_code: ConnectReasonCode::Success { session_present },
        other_properties: ConnAckOtherProperties::default(),
    }
}

fn connected_session(max: u16) -> Session {
    let mut session = Session::new(pkid(max));
    assert!(session.incoming_connack(&connack(true), KeepAlive::Infinite).is_empty());
    assert!(session.is_connected());
    session
}

fn is_unexpected<T>(r: &Result<T, ProtocolError>) -> bool {
    matches!(r, Err(ProtocolError(ProtocolErrorRepr::UnexpectedPacket)))
}

fn disconnect(session_expiry_interval: Option<SessionExpiryInterval>) -> Disconnect {
    Disconnect {
        reason_code: DisconnectReasonCode::Normal,
        other_properties: DisconnectOtherProperties {
            session_expiry_interval,
            reason_string: None,
            user_properties: Vec::new(),
            server_reference: None,
        },
    }
}

#[test]
fn pubcomp_bypasses_publish_acknowledgement_ordering() {
    let mut session = connected_session(u16::MAX);
    // An inbound QoS 2 PUBLISH is accepted and its PUBREL received: a PUBCOMP is now owed.
    let delivery = session.incoming_publish(PacketIdentifierDupQoS::ExactlyOnce(pkid(1), false));
    assert_eq!(
        delivery,
        Some(IncomingDelivery::QoS2 { packet_identifier: 1, session_generation: 0 })
    );
    let accept = AcknowledgementRequest {
        kind: AcknowledgementKind::PubRecAccept,
        packet_identifier: 1,
        stamp: 0,
    };
    assert_eq!(session.route_acknowledgement(accept), AcknowledgementRoute::Hold);
    assert_eq!(session.next_ready_acknowledgement(), Some(ReadyAcknowledgement::Incoming(1)));
    session.outgoing_request(OutgoingRequest::PubRecAccept(1));
    assert_eq!(
        session.complete_inflight(CompletedOperation::PubRec(1)).ok(),
        Some(Completion::PubRec { packet_identifier: 1, pubcomp_generation: 0 })
    );
    // A QoS 1 PUBLISH arrives later; its PUBACK is not yet given.
    let delivery = session.incoming_publish(PacketIdentifierDupQoS::AtLeastOnce(pkid(2), false));
    assert_eq!(delivery, Some(IncomingDelivery::QoS1 { packet_identifier: 2, connection_epoch: 1 }));
    // The PUBCOMP is sent at once, not held behind the PUBACK owed before it.
    let pubcomp = AcknowledgementRequest {
        kind: AcknowledgementKind::PubComp,
        packet_identifier: 1,
        stamp: 0,
    };
    assert_eq!(session.route_acknowledgement(pubcomp), AcknowledgementRoute::Send);
    assert!(session.holds_incoming(2));
    assert_eq!(session.next_ready_acknowledgement(), None);
}

#[test]
fn session_subscribe_completes_and_frees_its_identifier() {
    let mut session = connected_session(1);
    let p = session.lease_packet_identifier().unwrap();
    assert_eq!(p.get(), 1);
    assert_eq!(session.lease_packet_identifier(), None);
    session.outgoing_request(OutgoingRequest::Subscribe(1));
    assert_eq!(
        session.complete_inflight(CompletedOperation::Subscribe(1)).ok(),
        Some(Completion::Subscribe(1))
    );
    assert_eq!(session.lease_packet_identifier(), Some(pkid(1)));
    // A second SUBACK for the same identifier is unexpected.
    assert!(is_unexpected(&session.complete_inflight(CompletedOperation::Subscribe(1))));
}

#[test]
fn session_unsuback_without_unsubscribe_is_unexpected() {
    let mut session = connected_session(10);
    assert!(is_unexpected(&session.complete_inflight(CompletedOperation::Unsubscribe(4))));
}

#[test]
fn session_qos1_publish_completes_on_puback() {
    let mut session = connected_session(10);
    let p = session.lease_packet_identifier().unwrap().get();
    session.outgoing_request(OutgoingRequest::PublishQoS1(p));
    // A PUBREC for a QoS 1 PUBLISH is unexpected, and changes nothing.
    assert!(is_unexpected(&session.complete_inflight(CompletedOperation::PublishQoS2 { packet_identifier: p, success: true })));
    assert_eq!(
        session.complete_inflight(CompletedOperation::PublishQoS1(p)).ok(),
        Some(Completion::PublishQoS1(p))
    );
    assert!(is_unexpected(&session.complete_inflight(CompletedOperation::PublishQoS1(p))));
}

#[test]
fn session_qos2_publish_runs_pubrec_pubrel_pubcomp() {
    let mut session = connected_session(10);
    let p = session.lease_packet_identifier().unwrap().get();
    session.outgoing_request(OutgoingRequest::PublishQoS2(p));
    assert_eq!(
        session.complete_inflight(CompletedOperation::PublishQoS2 { packet_identifier: p, success: true }).ok(),
        Some(Completion::PublishQoS2 { packet_identifier: p, pubrel_generation: Some(0) })
    );
    // A PUBREC again while the application's PUBREL is awaited changes nothing.
    assert_eq!(
        session.complete_inflight(CompletedOperation::PublishQoS2 { packet_identifier: p, success: true }).ok(),
        Some(Completion::Nothing)
    );
    // A stale PUBREL request is cancelled; the right one is held and then released in order.
    let stale = AcknowledgementRequest { kind: AcknowledgementKind::PubRel, packet_identifier: p, stamp: 7 };
    assert_eq!(session.route_acknowledgement(stale), AcknowledgementRoute::Cancel);
    let pubrel = AcknowledgementRequest { kind: AcknowledgementKind::PubRel, packet_identifier: p, stamp: 0 };
    assert_eq!(session.route_acknowledgement(pubrel), AcknowledgementRoute::Hold);
    assert_eq!(session.next_ready_acknowledgement(), Some(ReadyAcknowledgement::PubRel(p)));
    session.outgoing_request(OutgoingRequest::PubRel(p));
    // A PUBREC again now has the session send the PUBREL again.
    assert_eq!(
        session.complete_inflight(CompletedOperation::PublishQoS2 { packet_identifier: p, success: true }).ok(),
        Some(Completion::Nothing)
    );
    assert_eq!(
        session.next_queued_packet(),
        Some(QueuedPacket::PubRel { packet_identifier: p, recovery: false })
    );
    assert_eq!(
        session.complete_inflight(CompletedOperation::PubRel(p)).ok(),
        Some(Completion::PubRel(p))
    );
    assert_eq!(session.lease_packet_identifier().map(|q| q.get()), Some(p + 1));
}

#[test]
fn session_failed_pubrec_frees_the_identifier() {
    let mut session = connected_session(1);
    let p = session.lease_packet_identifier().unwrap().get();
    session.outgoing_request(OutgoingRequest::PublishQoS2(p));
    assert_eq!(
        session.complete_inflight(CompletedOperation::PublishQoS2 { packet_identifier: p, success: false }).ok(),
        Some(Completion::PublishQoS2 { packet_identifier: p, pubrel_generation: None })
    );
    assert_eq!(session.lease_packet_identifier(), Some(pkid(1)));
}

#[test]
fn session_unknown_pubrec_gets_a_recovery_pubrel() {
    let mut session = connected_session(10);
    assert_eq!(
        session.complete_inflight(CompletedOperation::PublishQoS2 { packet_identifier: 9, success: true }).ok(),
        Some(Completion::Nothing)
    );
    assert_eq!(
        session.next_queued_packet(),
        Some(QueuedPacket::PubRel { packet_identifier: 9, recovery: true })
    );
    assert_eq!(session.next_queued_packet(), None);
    // Its PUBCOMP completes nobody.
    assert_eq!(
        session.complete_inflight(CompletedOperation::PubRel(9)).ok(),
        Some(Completion::Nothing)
    );
    assert!(is_unexpected(&session.complete_inflight(CompletedOperation::PubRel(9))));
}

#[test]
fn session_unknown_pubrel_gets_pubcomp_not_found() {
    let mut session = connected_session(10);
    assert_eq!(
        session.complete_inflight(CompletedOperation::PubRec(3)).ok(),
        Some(Completion::Nothing)
    );
    assert_eq!(session.next_queued_packet(), Some(QueuedPacket::PubCompNotFound(3)));
}

#[test]
fn session_acknowledgements_leave_in_order_received() {
    let mut session = connected_session(10);
    session.incoming_publish(PacketIdentifierDupQoS::AtLeastOnce(pkid(5), false));
    session.incoming_publish(PacketIdentifierDupQoS::AtLeastOnce(pkid(6), false));
    let second = AcknowledgementRequest { kind: AcknowledgementKind::PubAck, packet_identifier: 6, stamp: 1 };
    assert_eq!(session.route_acknowledgement(second), AcknowledgementRoute::Hold);
    // The PUBACK for 6 waits for the one for 5.
    assert_eq!(session.next_ready_acknowledgement(), None);
    let first = AcknowledgementRequest { kind: AcknowledgementKind::PubAck, packet_identifier: 5, stamp: 1 };
    assert_eq!(session.route_acknowledgement(first), AcknowledgementRoute::Hold);
    assert_eq!(session.next_ready_acknowledgement(), Some(ReadyAcknowledgement::Incoming(5)));
    assert_eq!(session.next_ready_acknowledgement(), Some(ReadyAcknowledgement::Incoming(6)));
    assert_eq!(session.next_ready_acknowledgement(), None);
    // A PUBACK from an earlier connection is cancelled.
    session.incoming_publish(PacketIdentifierDupQoS::AtLeastOnce(pkid(7), false));
    let stale = AcknowledgementRequest { kind: AcknowledgementKind::PubAck, packet_identifier: 7, stamp: 0 };
    assert_eq!(session.route_acknowledgement(stale), AcknowledgementRoute::Cancel);
}

#[test]
fn session_duplicate_qos2_publish_is_answered_or_dropped() {
    let mut session = connected_session(10);
    assert!(session.incoming_publish(PacketIdentifierDupQoS::ExactlyOnce(pkid(4), false)).is_some());
    // With the application: dropped.
    assert_eq!(session.incoming_publish(PacketIdentifierDupQoS::ExactlyOnce(pkid(4), true)), None);
    let accept = AcknowledgementRequest { kind: AcknowledgementKind::PubRecAccept, packet_identifier: 4, stamp: 0 };
    assert_eq!(session.route_acknowledgement(accept), AcknowledgementRoute::Hold);
    assert_eq!(session.next_ready_acknowledgement(), Some(ReadyAcknowledgement::Incoming(4)));
    session.outgoing_request(OutgoingRequest::PubRecAccept(4));
    // Accepted: its PUBREC is sent again.
    assert_eq!(session.incoming_publish(PacketIdentifierDupQoS::ExactlyOnce(pkid(4), true)), None);
    assert_eq!(session.next_queued_packet(), Some(QueuedPacket::PubRec(4)));
    // QoS 0 always reaches the application.
    assert_eq!(session.incoming_publish(PacketIdentifierDupQoS::AtMostOnce), Some(IncomingDelivery::QoS0));
}

#[test]
fn session_disconnect_cancels_and_queues_replay() {
    let mut session = connected_session(10);
    let a = session.lease_packet_identifier().unwrap().get();
    session.outgoing_request(OutgoingRequest::PublishQoS1(a));
    let b = session.lease_packet_identifier().unwrap().get();
    session.outgoing_request(OutgoingRequest::Subscribe(b));
    let c = session.lease_packet_identifier().unwrap().get();
    session.outgoing_request(OutgoingRequest::PublishQoS2(c));
    session.outgoing_request(OutgoingRequest::Reauth);
    session.incoming_publish(PacketIdentifierDupQoS::AtLeastOnce(pkid(8), false));
    let puback = AcknowledgementRequest { kind: AcknowledgementKind::PubAck, packet_identifier: 8, stamp: 1 };
    assert_eq!(session.route_acknowledgement(puback), AcknowledgementRoute::Hold);

    let cancelled = session.server_disconnect();
    assert!(!session.is_connected());
    assert_eq!(cancelled.len(), 3);
    assert!(cancelled.contains(&Cancellation::Subscribe(b)));
    assert!(cancelled.contains(&Cancellation::Auth));
    assert!(cancelled.contains(&Cancellation::Acknowledgement(8)));
    // The PUBLISHes in flight are sent again, in order, with DUP set.
    assert_eq!(session.next_queued_packet(), Some(QueuedPacket::Publish(a)));
    assert_eq!(session.next_queued_packet(), Some(QueuedPacket::Publish(c)));
    assert_eq!(session.next_queued_packet(), None);
    // The SUBSCRIBE's identifier is free again.
    assert_eq!(session.lease_packet_identifier().map(|q| q.get()), Some(b.max(c) + 1));
}

#[test]
fn session_disconnect_with_zero_expiry_ends_the_session() {
    let mut session = connected_session(10);
    let a = session.lease_packet_identifier().unwrap().get();
    session.outgoing_request(OutgoingRequest::PublishQoS1(a));
    let cancelled = session.client_disconnect(&disconnect(Some(SessionExpiryInterval::Duration(0))));
    assert_eq!(cancelled, vec![Cancellation::Publish(a)]);
    assert_eq!(session.next_queued_packet(), None);
    // The session moved to its next generation: an old QoS 2 token is stale.
    let reconnect = session.incoming_connack(&connack(true), KeepAlive::from_u16(30));
    assert!(reconnect.is_empty());
    session.incoming_publish(PacketIdentifierDupQoS::ExactlyOnce(pkid(2), false));
    let stale = AcknowledgementRequest { kind: AcknowledgementKind::PubRecAccept, packet_identifier: 2, stamp: 0 };
    assert_eq!(session.route_acknowledgement(stale), AcknowledgementRoute::Cancel);
    let fresh = AcknowledgementRequest { kind: AcknowledgementKind::PubRecAccept, packet_identifier: 2, stamp: 1 };
    assert_eq!(session.route_acknowledgement(fresh), AcknowledgementRoute::Hold);
}

#[test]
fn session_not_present_on_server_cancels_everything() {
    let mut session = connected_session(10);
    let a = session.lease_packet_identifier().unwrap().get();
    session.outgoing_request(OutgoingRequest::PublishQoS2(a));
    let kept = session.transport_disconnect();
    assert!(kept.is_empty());
    let cancelled = session.incoming_connack(&connack(false), KeepAlive::Infinite);
    assert_eq!(cancelled, vec![Cancellation::Publish(a)]);
    assert_eq!(session.next_queued_packet(), None);
    assert_eq!(session.lease_packet_identifier().map(|q| q.get()), Some(a + 1));
}

#[test]
fn session_auth_completes_a_reauthentication() {
    let mut session = connected_session(10);
    let auth = Auth {
        reason_code: AuthenticateReasonCode::Success,
        authentication: None,
        reason_string: None,
        user_properties: Vec::new(),
    };
    assert!(is_unexpected(&session.incoming_auth(&auth)));
    session.outgoing_request(OutgoingRequest::Reauth);
    assert_eq!(
        session.incoming_auth(&auth).ok(),
        Some(AuthOutcome::Success)
    );
    assert!(is_unexpected(&session.incoming_auth(&auth)));
    let reauthenticate = Auth { reason_code: AuthenticateReasonCode::ReAuthenticate, ..auth };
    session.outgoing_request(OutgoingRequest::Reauth);
    assert!(is_unexpected(&session.incoming_auth(&reauthenticate)));
}

#[test]
fn session_connack_sets_the_ping_interval_and_epoch() {
    let mut session = Session::new(pkid(10));
    let refused = ConnAck {
        reason_code: ConnectReasonCode::Refused(
            ms_mqtt_client::mqtt_proto::codes::ConnectionRefusedReason::Banned,
        ),
        other_properties: ConnAckOtherProperties::default(),
    };
    assert!(session.incoming_connack(&refused, KeepAlive::Infinite).is_empty());
    assert!(!session.is_connected());
    let mut with_keep_alive = connack(true);
    with_keep_alive.other_properties.server_keep_alive = Some(KeepAlive::from_u16(5));
    session.incoming_connack(&with_keep_alive, KeepAlive::from_u16(60));
    assert!(session.is_connected());
    session.incoming_publish(PacketIdentifierDupQoS::AtLeastOnce(pkid(3), false));
    let puback = AcknowledgementRequest { kind: AcknowledgementKind::PubAck, packet_identifier: 3, stamp: 1 };
    assert_eq!(session.route_acknowledgement(puback), AcknowledgementRoute::Hold);
}

#[test]
fn session_ping_interval_follows_the_keep_alive_in_force() {
    let mut session = Session::new(pkid(10));
    assert_eq!(session.ping_interval(), None);
    let mut with_keep_alive = connack(true);
    with_keep_alive.other_properties.server_keep_alive = Some(KeepAlive::from_u16(5));
    session.incoming_connack(&with_keep_alive, KeepAlive::from_u16(60));
    assert_eq!(session.ping_interval(), Some(5));
    session.transport_disconnect();
    assert_eq!(session.ping_interval(), None);
    session.incoming_connack(&connack(true), KeepAlive::from_u16(60));
    assert_eq!(session.ping_interval(), Some(60));
}

fn suback(p: u16) -> Packet {
    Packet::SubAck(SubAck {
        packet_identifier: pkid(p),
        reason_codes: vec![SubscribeReasonCode::GrantedQoS1],
        other_properties: SubAckOtherProperties { reason_string: None, user_properties: vec![] },
    })
}

#[test]
fn connect_outcome_follows_the_response() {
    let mut session = Session::new(pkid(10));
    let (outcome, cancelled) = connect_outcome(&mut session, None, KeepAlive::Infinite, false);
    assert!(matches!(outcome, ConnectOutcome::Failed(ConnectError::ResponseTimeout)));
    assert!(cancelled.is_empty());
    let refused = ConnAck {
        reason_code: ConnectReasonCode::Refused(
            ms_mqtt_client::mqtt_proto::codes::ConnectionRefusedReason::NotAuthorized,
        ),
        other_properties: ConnAckOtherProperties::default(),
    };
    let (outcome, _) =
        connect_outcome(&mut session, Some(Ok(Packet::ConnAck(refused))), KeepAlive::Infinite, false);
    assert!(matches!(outcome, ConnectOutcome::Failed(ConnectError::Rejected(_))));
    assert!(!session.is_connected());
    let auth = Auth {
        reason_code: AuthenticateReasonCode::ContinueAuthentication,
        authentication: None,
        reason_string: None,
        user_properties: Vec::new(),
    };
    let (outcome, _) =
        connect_outcome(&mut session, Some(Ok(Packet::Auth(auth))), KeepAlive::Infinite, false);
    assert!(matches!(
        outcome,
        ConnectOutcome::Failed(ConnectError::Protocol(ProtocolError(ProtocolErrorRepr::UnexpectedPacket)))
    ));
    let auth = Auth {
        reason_code: AuthenticateReasonCode::ContinueAuthentication,
        authentication: None,
        reason_string: None,
        user_properties: Vec::new(),
    };
    let (outcome, _) =
        connect_outcome(&mut session, Some(Ok(Packet::Auth(auth))), KeepAlive::Infinite, true);
    assert!(matches!(outcome, ConnectOutcome::Continue(_)));
    let (outcome, _) = connect_outcome(&mut session, Some(Ok(suback(1))), KeepAlive::Infinite, true);
    assert!(matches!(
        outcome,
        ConnectOutcome::Failed(ConnectError::Protocol(ProtocolError(ProtocolErrorRepr::UnexpectedPacket)))
    ));
    let (outcome, _) = connect_outcome(
        &mut session,
        Some(Ok(Packet::ConnAck(connack(true)))),
        KeepAlive::from_u16(9),
        false,
    );
    assert!(matches!(outcome, ConnectOutcome::Connected(_)));
    assert!(session.is_connected());
    assert_eq!(session.ping_interval(), Some(9));
}

#[test]
fn connection_takes_in_received_packets() {
    let mut session = connected_session(10);
    let p = session.lease_packet_identifier().unwrap().get();
    session.outgoing_request(OutgoingRequest::Subscribe(p));
    assert!(matches!(
        incoming_packet(&mut session, suback(p)),
        IncomingStep::Completed(Completion::Subscribe(q)) if q == p
    ));
    assert!(matches!(
        incoming_packet(&mut session, suback(p)),
        IncomingStep::Failed(ProtocolError(ProtocolErrorRepr::UnexpectedPacket), _)
    ));
    assert!(matches!(incoming_packet(&mut session, Packet::PingResp(PingResp)), IncomingStep::PingResponse));
    assert!(session.is_connected());
    // A CONNACK on an established connection is unexpected and ends it.
    assert!(matches!(
        incoming_packet(&mut session, Packet::ConnAck(connack(true))),
        IncomingStep::Failed(ProtocolError(ProtocolErrorRepr::UnexpectedPacket), _)
    ));
    assert!(!session.is_connected());
    session.incoming_connack(&connack(true), KeepAlive::Infinite);
    assert!(matches!(
        incoming_packet(&mut session, Packet::Disconnect(disconnect(None))),
        IncomingStep::ServerDisconnect(_, _)
    ));
    assert!(!session.is_connected());
}

#[test]
fn session_leases_only_identifiers_no_operation_holds() {
    let mut session = connected_session(3);
    let a = session.lease_packet_identifier().unwrap().get();
    session.outgoing_request(OutgoingRequest::PublishQoS1(a));
    let b = session.lease_packet_identifier().unwrap().get();
    session.outgoing_request(OutgoingRequest::Subscribe(b));
    let c = session.lease_packet_identifier().unwrap().get();
    session.outgoing_request(OutgoingRequest::PublishQoS2(c));
    assert_eq!((a, b, c), (1, 2, 3));
    assert_eq!(session.lease_packet_identifier(), None);
    // A successful PUBREC keeps the identifier held while the PUBREL step runs.
    assert!(session
        .complete_inflight(CompletedOperation::PublishQoS2 { packet_identifier: c, success: true })
        .is_ok());
    assert_eq!(session.lease_packet_identifier(), None);
    assert!(session.complete_inflight(CompletedOperation::Subscribe(b)).is_ok());
    assert_eq!(session.lease_packet_identifier().map(|p| p.get()), Some(b));
}

#[test]
fn session_suback_for_a_publish_identifier_frees_it() {
    // A SUBACK naming the identifier of a PUBLISH in flight is unexpected, yet it frees the
    // identifier: the one input on which identifiers can end up tracked twice.
    let mut session = connected_session(1);
    let a = session.lease_packet_identifier().unwrap().get();
    session.outgoing_request(OutgoingRequest::PublishQoS1(a));
    assert!(is_unexpected(&session.complete_inflight(CompletedOperation::Subscribe(a))));
    assert_eq!(session.lease_packet_identifier().map(|p| p.get()), Some(a));
}
