//! What an established connection does with a packet it received from the server.
use vstd::prelude::*;

use crate::client::session::index_map::has_key;
use crate::client::session::{
    after_completion, after_disconnect_event, after_incoming_auth, after_incoming_publish,
    disconnect_event_cancellations, AuthOutcome, Cancellation, CompletedOperation, Completion,
    IncomingDelivery, Session,
};
use crate::error::{ProtocolError, ProtocolErrorRepr};
use crate::mqtt_proto::codes::AuthenticateReasonCode;
use crate::mqtt_proto::disconnect::Disconnect;
use crate::mqtt_proto::packet::Packet;
use crate::mqtt_proto::publish::Publish;
use crate::mqtt_proto::PacketIdentifierDupQoS;

verus! {

/// What follows a packet received on an established connection.
pub enum IncomingStep {
    /// An acknowledgement completed what it answers.
    Completed(Completion),
    /// An AUTH answered a re-authentication.
    Authenticated(AuthOutcome),
    /// A PUBLISH, with how it reaches the application, if it is not one handed over before.
    Delivered(Publish, Option<IncomingDelivery>),
    /// A PINGRESP answered the PINGREQ outstanding.
    PingResponse,
    /// The server ended the connection with this DISCONNECT; what that cancels.
    ServerDisconnect(Disconnect, Vec<Cancellation>),
    /// The server broke the protocol: the connection ends with this error; what that cancels.
    Failed(ProtocolError, Vec<Cancellation>),
}

/// Whether a packet may be taken in as it is: a QoS 1 PUBLISH must not reuse the identifier of
/// one the application still holds; an AUTH that continues a re-authentication in flight must
/// name its method; an end of connection that ends the session must leave it a next
/// generation.
pub open spec fn acceptable(session: Session, packet: Packet) -> bool {
    let v = session@;
    match packet {
        Packet::Publish(p) => p.packet_identifier_dup_qos matches PacketIdentifierDupQoS::AtLeastOnce(
            id,
            _,
        ) ==> !has_key(v.in_application, id@),
        Packet::Auth(a) => a.reason_code is ContinueAuthentication && v.auth
            ==> a.authentication is Some,
        Packet::SubAck(_) | Packet::UnsubAck(_) | Packet::PubAck(_) | Packet::PubRec(_)
        | Packet::PingResp(_) => true,
        _ => v.transient ==> v.session_generation < u64::MAX,
    }
}

/// Takes in a packet received on an established connection: an AUTH, SUBACK, UNSUBACK, PUBACK or
/// PUBREC goes to the session, which completes what it answers or fails with an unexpected packet; a PUBLISH
/// goes to the session for delivery; a PINGRESP answers the PINGREQ; a DISCONNECT ends the
/// connection as the server's; any other packet is unexpected and ends the connection as the
/// transport's.
pub fn incoming_packet(session: &mut Session, packet: Packet) -> (r: IncomingStep)
    requires
        old(session).wf(),
        acceptable(*old(session), packet),
    ensures
        final(session).wf(),
        ({
            let v = old(session)@;
            let w = final(session)@;
            match packet {
                Packet::Auth(a) => {
                    &&& w == after_incoming_auth(v, a.reason_code).0
                    &&& match after_incoming_auth(v, a.reason_code).1 {
                        Ok(o) => r == IncomingStep::Authenticated(o),
                        Err(e) => r matches IncomingStep::Failed(e2, c) && e2 == e && c@.len() == 0,
                    }
                },
                Packet::SubAck(s) => {
                    let step = after_completion(v, CompletedOperation::Subscribe(s.packet_identifier@));
                    &&& w == step.0
                    &&& match step.1 {
                        Ok(c) => r == IncomingStep::Completed(c),
                        Err(e) => r matches IncomingStep::Failed(e2, c) && e2 == e && c@.len() == 0,
                    }
                },
                Packet::UnsubAck(u) => {
                    let step = after_completion(v, CompletedOperation::Unsubscribe(u.packet_identifier@));
                    &&& w == step.0
                    &&& match step.1 {
                        Ok(c) => r == IncomingStep::Completed(c),
                        Err(e) => r matches IncomingStep::Failed(e2, c) && e2 == e && c@.len() == 0,
                    }
                },
                Packet::PubRec(p) => {
                    let step = after_completion(
                        v,
                        CompletedOperation::PublishQoS2 {
                            packet_identifier: p.packet_identifier@,
                            success: p.reason_code.spec_is_success(),
                        },
                    );
                    &&& w == step.0
                    &&& match step.1 {
                        Ok(c) => r == IncomingStep::Completed(c),
                        Err(e) => r matches IncomingStep::Failed(e2, c) && e2 == e && c@.len() == 0,
                    }
                },
                Packet::PubAck(p) => {
                    let step = after_completion(v, CompletedOperation::PublishQoS1(p.packet_identifier@));
                    &&& w == step.0
                    &&& match step.1 {
                        Ok(c) => r == IncomingStep::Completed(c),
                        Err(e) => r matches IncomingStep::Failed(e2, c) && e2 == e && c@.len() == 0,
                    }
                },
                Packet::Publish(p) => {
                    let step = after_incoming_publish(v, p.packet_identifier_dup_qos);
                    w == step.0 && r == IncomingStep::Delivered(p, step.1)
                },
                Packet::PingResp(_) => w == v && r == IncomingStep::PingResponse,
                Packet::Disconnect(d) => {
                    &&& w == after_disconnect_event(v, false)
                    &&& r matches IncomingStep::ServerDisconnect(d2, c) && d2 == d && c@.to_set()
                        == disconnect_event_cancellations(v, false)
                },
                _ => {
                    &&& w == after_disconnect_event(v, false)
                    &&& r matches IncomingStep::Failed(e, c) && e == ProtocolError(
                        ProtocolErrorRepr::UnexpectedPacket,
                    ) && c@.to_set() == disconnect_event_cancellations(v, false)
                },
            }
        }),
{
    match packet {
        Packet::Auth(auth) => match session.incoming_auth(&auth) {
            Ok(outcome) => IncomingStep::Authenticated(outcome),
            Err(e) => IncomingStep::Failed(e, Vec::new()),
        },
        Packet::SubAck(suback) => {
            match session.complete_inflight(CompletedOperation::Subscribe(suback.packet_identifier.get())) {
                Ok(c) => IncomingStep::Completed(c),
                Err(e) => IncomingStep::Failed(e, Vec::new()),
            }
        },
        Packet::UnsubAck(unsuback) => {
            match session.complete_inflight(CompletedOperation::Unsubscribe(unsuback.packet_identifier.get())) {
                Ok(c) => IncomingStep::Completed(c),
                Err(e) => IncomingStep::Failed(e, Vec::new()),
            }
        },
        Packet::PubRec(pubrec) => {
            let op = CompletedOperation::PublishQoS2 {
                packet_identifier: pubrec.packet_identifier.get(),
                success: pubrec.reason_code.is_success(),
            };
            match session.complete_inflight(op) {
                Ok(c) => IncomingStep::Completed(c),
                Err(e) => IncomingStep::Failed(e, Vec::new()),
            }
        },
        Packet::PubAck(puback) => {
            match session.complete_inflight(CompletedOperation::PublishQoS1(puback.packet_identifier.get())) {
                Ok(c) => IncomingStep::Completed(c),
                Err(e) => IncomingStep::Failed(e, Vec::new()),
            }
        },
        Packet::Publish(publish) => {
            let delivery = session.incoming_publish(publish.packet_identifier_dup_qos);
            IncomingStep::Delivered(publish, delivery)
        },
        Packet::PingResp(_) => IncomingStep::PingResponse,
        Packet::Disconnect(disconnect) => {
            let cancelled = session.server_disconnect();
            IncomingStep::ServerDisconnect(disconnect, cancelled)
        },
        _ => {
            let cancelled = session.transport_disconnect();
            IncomingStep::Failed(ProtocolError(ProtocolErrorRepr::UnexpectedPacket), cancelled)
        },
    }
}

/// Whether `incoming_packet` may take in `packet` as it is.
pub fn can_take_in(session: &Session, packet: &Packet) -> (r: bool)
    requires
        session.wf(),
    ensures
        r == acceptable(*session, *packet),
{
    match packet {
        Packet::Publish(p) => match p.packet_identifier_dup_qos {
            PacketIdentifierDupQoS::AtLeastOnce(id, _) => !session.holds_incoming(id.get()),
            _ => true,
        },
        Packet::Auth(a) => match a.reason_code {
            AuthenticateReasonCode::ContinueAuthentication => !session.awaits_auth()
                || a.authentication.is_some(),
            _ => true,
        },
        Packet::SubAck(_) | Packet::UnsubAck(_) | Packet::PubAck(_) | Packet::PubRec(_)
        | Packet::PingResp(_) => true,
        _ => !session.is_transient() || session.session_generation() < u64::MAX,
    }
}

} // verus!
