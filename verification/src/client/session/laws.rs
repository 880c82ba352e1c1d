//! What every step of the session keeps: each packet identifier that an outgoing operation is
//! tracked under is leased, and no identifier is tracked by two outgoing operations at once.
use vstd::prelude::*;

use super::index_map::{
    has_key, insert_key, keys_set, keys_unique, keys_with, lemma_drop_first_sets, lemma_insert_key,
    lemma_insert_key_sets, lemma_remove_key, lemma_remove_key_sets, lookup,
};
use super::{
    IncomingDelivery, after_completion, after_connack, connack_cancellations, Cancellation, after_disconnect, after_disconnect_event, after_expiry,
    after_incoming_auth, after_incoming_publish, after_outgoing, after_ready_acknowledgement,
    after_route, unexpected_packet, AcknowledgementRequest, AuthOutcome, CompletedOperation, Completion,
    OutgoingRequest,
    SessionView, PUBLISH_QOS1, PUBLISH_QOS2, PUBREL_AWAITING_APPLICATION, PUBREL_FROM_APPLICATION,
    PUBREL_READY, PUBREL_RECOVERY,
};
use crate::client::pkid::PkidPoolView;
use crate::mqtt_proto::codes::AuthenticateReasonCode;
use crate::mqtt_proto::connack::{ConnAck, ConnectReasonCode};
use crate::mqtt_proto::property::KeepAlive;
use crate::mqtt_proto::{PacketIdentifier, PacketIdentifierDupQoS};

verus! {

/// The identifiers outgoing operations are tracked under: PUBLISHes in flight, SUBSCRIBEs and
/// UNSUBSCRIBEs in flight, PUBRELs awaited, and PUBRELs from the application.
pub open spec fn tracked_outgoing(v: SessionView) -> Set<u16> {
    keys_set(v.publish).union(v.subscribe).union(v.unsubscribe).union(
        keys_set(v.pubrel_pending),
    ).union(keys_with(v.pubrel, PUBREL_FROM_APPLICATION))
}

/// Each tracked outgoing identifier is leased, and no two outgoing trackers share one.
pub open spec fn tracking_consistent(v: SessionView) -> bool {
    let p = keys_set(v.publish);
    let s = v.subscribe;
    let u = v.unsubscribe;
    let r = keys_set(v.pubrel_pending);
    let a = keys_with(v.pubrel, PUBREL_FROM_APPLICATION);
    &&& tracked_outgoing(v).subset_of(v.pool.leased)
    &&& p.disjoint(s) && p.disjoint(u) && p.disjoint(r) && p.disjoint(a)
    &&& s.disjoint(u) && s.disjoint(r) && s.disjoint(a)
    &&& u.disjoint(r) && u.disjoint(a)
    &&& r.disjoint(a)
}

/// Whether `p` was leased and is not yet tracked: an identifier just leased, or one whose
/// PUBREL the session handed out to be sent.
pub open spec fn fresh(v: SessionView, p: u16) -> bool {
    v.pool.leased.contains(p) && !tracked_outgoing(v).contains(p)
}

/// Whether an outgoing request tracks only fresh identifiers.
pub open spec fn outgoing_fresh(v: SessionView, req: OutgoingRequest) -> bool {
    match req {
        OutgoingRequest::PubRel(p) => fresh(v, p),
        OutgoingRequest::Subscribe(p) => fresh(v, p),
        OutgoingRequest::Unsubscribe(p) => fresh(v, p),
        OutgoingRequest::PublishQoS1(p) => fresh(v, p),
        OutgoingRequest::PublishQoS2(p) => fresh(v, p),
        _ => true,
    }
}

/// Whether a SUBACK or UNSUBACK names an identifier its kind of operation holds, or one no
/// outgoing operation holds; any other response is fine.
pub open spec fn completion_matches(v: SessionView, op: CompletedOperation) -> bool {
    match op {
        CompletedOperation::Subscribe(p) => v.subscribe.contains(p) || !tracked_outgoing(v).contains(p),
        CompletedOperation::Unsubscribe(p) => v.unsubscribe.contains(p) || !tracked_outgoing(
            v,
        ).contains(p),
        _ => true,
    }
}

/// A session with nothing in flight is consistent.
pub proof fn lemma_empty_consistent(v: SessionView)
    requires
        v.publish.len() == 0,
        v.subscribe.is_empty(),
        v.unsubscribe.is_empty(),
        v.pubrel_pending.len() == 0,
        v.pubrel.len() == 0,
    ensures
        tracking_consistent(v),
{
    assert(keys_set(v.publish) =~= Set::empty());
    assert(keys_set(v.pubrel_pending) =~= Set::empty());
    assert(keys_with(v.pubrel, PUBREL_FROM_APPLICATION) =~= Set::empty());
    assert(v.subscribe =~= Set::empty());
    assert(v.unsubscribe =~= Set::empty());
}

/// Sending the packet of an outgoing request keeps the session consistent, when the request
/// tracks only fresh identifiers.
pub proof fn lemma_outgoing_keeps_tracking(v: SessionView, req: OutgoingRequest)
    requires
        v.valid(),
        tracking_consistent(v),
        outgoing_fresh(v, req),
    ensures
        tracking_consistent(after_outgoing(v, req)),
{
    let w = after_outgoing(v, req);
    match req {
        OutgoingRequest::PubRel(p) => {
            lemma_insert_key_sets(v.pubrel, p, PUBREL_FROM_APPLICATION, PUBREL_FROM_APPLICATION);
        },
        OutgoingRequest::PublishQoS1(p) => {
            lemma_insert_key_sets(v.publish, p, PUBLISH_QOS1, PUBLISH_QOS1);
        },
        OutgoingRequest::PublishQoS2(p) => {
            lemma_insert_key_sets(v.publish, p, PUBLISH_QOS2, PUBLISH_QOS2);
        },
        _ => {},
    }
    assert(tracked_outgoing(w).subset_of(w.pool.leased));
}

/// Routing an acknowledgement request keeps the session consistent.
pub proof fn lemma_route_keeps_tracking(v: SessionView, req: AcknowledgementRequest)
    requires
        v.valid(),
        tracking_consistent(v),
    ensures
        tracking_consistent(after_route(v, req).0),
{
    let w = after_route(v, req).0;
    let p = req.packet_identifier;
    if req.kind is PubRel && w != v {
        lemma_insert_key_sets(v.pubrel_pending, p, PUBREL_READY, PUBREL_READY);
        assert(keys_set(w.pubrel_pending) =~= keys_set(v.pubrel_pending));
    }
}

/// Taking the next ready acknowledgement keeps the session consistent.
pub proof fn lemma_ready_keeps_tracking(v: SessionView)
    requires
        v.valid(),
        tracking_consistent(v),
    ensures
        tracking_consistent(after_ready_acknowledgement(v).0),
{
    let w = after_ready_acknowledgement(v).0;
    if !(v.in_application.len() > 0 && v.in_application[0].1 >= super::INCOMING_QOS1_READY)
        && v.pubrel_pending.len() > 0 && v.pubrel_pending[0].1 == PUBREL_READY {
        lemma_drop_first_sets(v.pubrel_pending, 0);
        assert(tracked_outgoing(w).subset_of(tracked_outgoing(v)));
    }
}

/// A response of the server keeps the session consistent, when a SUBACK or UNSUBACK does not
/// name an identifier another kind of operation holds.
pub proof fn lemma_completion_keeps_tracking(v: SessionView, op: CompletedOperation)
    requires
        v.valid(),
        tracking_consistent(v),
        completion_matches(v, op),
    ensures
        tracking_consistent(after_completion(v, op).0),
{
    let w = after_completion(v, op).0;
    match op {
        CompletedOperation::Subscribe(p) => {},
        CompletedOperation::Unsubscribe(p) => {},
        CompletedOperation::PublishQoS1(p) => {
            if lookup(v.publish, p) == Some(PUBLISH_QOS1) {
                lemma_remove_key_sets(v.publish, p, 0);
            }
        },
        CompletedOperation::PublishQoS2 { packet_identifier: p, success } => {
            if lookup(v.publish, p) != Some(PUBLISH_QOS1) && has_key(v.publish, p) {
                lemma_remove_key_sets(v.publish, p, 0);
                if success {
                    lemma_insert_key_sets(
                        v.pubrel_pending,
                        p,
                        PUBREL_AWAITING_APPLICATION,
                        PUBREL_AWAITING_APPLICATION,
                    );
                }
            } else if lookup(v.publish, p) != Some(PUBLISH_QOS1) && !has_key(v.pubrel_pending, p)
                && !has_key(v.pubrel, p) {
                lemma_insert_key_sets(v.pubrel, p, PUBREL_RECOVERY, PUBREL_FROM_APPLICATION);
                assert(super::index_map::insert_key(v.pubrel, p, PUBREL_RECOVERY) == v.pubrel.push(
                    (p, PUBREL_RECOVERY),
                ));
                assert(!keys_with(v.pubrel, PUBREL_FROM_APPLICATION).contains(p));
                assert(keys_with(w.pubrel, PUBREL_FROM_APPLICATION) =~= keys_with(
                    v.pubrel,
                    PUBREL_FROM_APPLICATION,
                ));
            }
        },
        CompletedOperation::PubRec(p) => {},
        CompletedOperation::PubRel(p) => {
            if has_key(v.pubrel, p) {
                lemma_remove_key_sets(v.pubrel, p, PUBREL_FROM_APPLICATION);
            }
        },
    }
    assert(tracked_outgoing(w).subset_of(w.pool.leased));
}

/// The end of the session keeps it consistent.
pub proof fn lemma_expiry_keeps_tracking(v: SessionView)
    requires
        keys_unique(v.pubrel),
        tracking_consistent(v),
    ensures
        tracking_consistent(after_expiry(v)),
{
    let w = after_expiry(v);
    assert(keys_set(w.publish) =~= Set::empty());
    assert(keys_set(w.pubrel_pending) =~= Set::empty());
    assert(keys_with(w.pubrel, PUBREL_FROM_APPLICATION) =~= Set::empty());
    assert(tracked_outgoing(w) =~= v.subscribe.union(v.unsubscribe));
}

/// The end of a connection, and of a transient session with it, keeps the session consistent.
pub proof fn lemma_disconnect_keeps_tracking(v: SessionView, make_transient: bool)
    requires
        v.valid(),
        tracking_consistent(v),
    ensures
        tracking_consistent(after_disconnect(v)),
        tracking_consistent(after_disconnect_event(v, make_transient)),
{
    let w = after_disconnect(v);
    assert(tracked_outgoing(w) =~= keys_set(v.publish).union(keys_set(v.pubrel_pending)).union(
        keys_with(v.pubrel, PUBREL_FROM_APPLICATION),
    ));
    assert(tracking_consistent(w));
    let w2 = SessionView { transient: v.transient || make_transient, ..w };
    assert(tracking_consistent(w2));
    if w2.transient {
        lemma_expiry_keeps_tracking(w2);
    }
}

/// A CONNACK keeps the session consistent.
pub proof fn lemma_connack_keeps_tracking(v: SessionView, connack: ConnAck, keep_alive: KeepAlive)
    requires
        v.valid(),
        tracking_consistent(v),
    ensures
        tracking_consistent(after_connack(v, connack, keep_alive)),
{
    lemma_expiry_keeps_tracking(v);
}

/// An inbound PUBLISH or AUTH keeps the session consistent: neither touches what is tracked
/// for outgoing operations.
pub proof fn lemma_incoming_keeps_tracking(
    v: SessionView,
    qos: PacketIdentifierDupQoS,
    reason: AuthenticateReasonCode,
)
    requires
        tracking_consistent(v),
    ensures
        tracking_consistent(after_incoming_publish(v, qos).0),
        tracking_consistent(after_incoming_auth(v, reason).0),
{
}

/// Leasing an identifier not leased, wherever the cursor moves, keeps the session consistent
/// and gives an identifier fresh for an outgoing request.
pub proof fn lemma_lease_gives_fresh(v: SessionView, p: u16, cursor: u16)
    requires
        tracking_consistent(v),
        !v.pool.leased.contains(p),
    ensures
        ({
            let w = SessionView {
                pool: PkidPoolView { leased: v.pool.leased.insert(p), cursor, ..v.pool },
                ..v
            };
            tracking_consistent(w) && fresh(w, p)
        }),
{
}

/// An inbound AUTH answers a re-authentication that the client sent: reason `Success` finishes
/// it with `AuthOutcome::Success`, reason `ContinueAuthentication` continues it with
/// `AuthOutcome::Continue`, and after either the re-authentication is no longer in flight, with
/// nothing else changed. A `ReAuthenticate` from the server is refused and changes nothing, and
/// with no re-authentication in flight every inbound AUTH is refused and changes nothing.
pub proof fn lemma_incoming_auth_answers_reauth(v: SessionView, reason: AuthenticateReasonCode)
    ensures
        ({
            let w = after_outgoing(v, OutgoingRequest::Reauth);
            let (x, r) = after_incoming_auth(w, reason);
            &&& w.auth
            &&& (r == Ok::<AuthOutcome, crate::error::ProtocolError>(AuthOutcome::Success)) <==> reason
                is Success
            &&& (r == Ok::<AuthOutcome, crate::error::ProtocolError>(AuthOutcome::Continue)) <==> reason
                is ContinueAuthentication
            &&& r is Ok ==> !x.auth && x == SessionView { auth: false, ..w }
            &&& reason is ReAuthenticate ==> r == Err::<AuthOutcome, crate::error::ProtocolError>(
                unexpected_packet(),
            ) && x == w
        }),
        !v.auth ==> after_incoming_auth(v, reason) == (
            v,
            Err::<AuthOutcome, crate::error::ProtocolError>(unexpected_packet()),
        ),
{
}

/// Each request is answered by its own acknowledgement. A SUBACK answers the SUBSCRIBE sent under
/// its identifier, an UNSUBACK the UNSUBSCRIBE, and a PUBACK the QoS 1 PUBLISH; each completes
/// that request and frees the identifier. A PUBREC answers a QoS 2 PUBLISH: a successful one
/// moves it on to its PUBREL and keeps the identifier, a failed one ends it and frees the
/// identifier. A PUBREC for a QoS 1 PUBLISH and a PUBACK for a QoS 2 PUBLISH are refused and
/// change nothing.
pub proof fn lemma_requests_answered(v: SessionView, p: u16, success: bool)
    requires
        keys_unique(v.publish),
        keys_unique(v.pubrel_pending),
    ensures
        ({
            let (w, r) = after_completion(
                after_outgoing(v, OutgoingRequest::Subscribe(p)),
                CompletedOperation::Subscribe(p),
            );
            r == Ok::<Completion, crate::error::ProtocolError>(Completion::Subscribe(p))
                && !w.subscribe.contains(p) && !w.pool.leased.contains(p)
        }),
        ({
            let (w, r) = after_completion(
                after_outgoing(v, OutgoingRequest::Unsubscribe(p)),
                CompletedOperation::Unsubscribe(p),
            );
            r == Ok::<Completion, crate::error::ProtocolError>(Completion::Unsubscribe(p))
                && !w.unsubscribe.contains(p) && !w.pool.leased.contains(p)
        }),
        ({
            let (w, r) = after_completion(
                after_outgoing(v, OutgoingRequest::PublishQoS1(p)),
                CompletedOperation::PublishQoS1(p),
            );
            r == Ok::<Completion, crate::error::ProtocolError>(Completion::PublishQoS1(p))
                && !has_key(w.publish, p) && !w.pool.leased.contains(p)
        }),
        ({
            let u = after_outgoing(v, OutgoingRequest::PublishQoS1(p));
            after_completion(u, CompletedOperation::PublishQoS2 { packet_identifier: p, success })
                == (u, Err::<Completion, crate::error::ProtocolError>(unexpected_packet()))
        }),
        ({
            let u = after_outgoing(v, OutgoingRequest::PublishQoS2(p));
            let (w, r) = after_completion(
                u,
                CompletedOperation::PublishQoS2 { packet_identifier: p, success },
            );
            &&& r == Ok::<Completion, crate::error::ProtocolError>(
                Completion::PublishQoS2 {
                    packet_identifier: p,
                    pubrel_generation: if success {
                        Some(v.session_generation)
                    } else {
                        None
                    },
                },
            )
            &&& !has_key(w.publish, p)
            &&& success ==> has_key(w.pubrel_pending, p) && w.pool == u.pool
            &&& !success ==> !w.pool.leased.contains(p)
        }),
        ({
            let u = after_outgoing(v, OutgoingRequest::PublishQoS2(p));
            after_completion(u, CompletedOperation::PublishQoS1(p)) == (
                u,
                Err::<Completion, crate::error::ProtocolError>(unexpected_packet()),
            )
        }),
{
    lemma_insert_key(v.publish, p, PUBLISH_QOS1);
    lemma_insert_key(v.publish, p, PUBLISH_QOS2);
    lemma_remove_key(insert_key(v.publish, p, PUBLISH_QOS1), p);
    lemma_remove_key(insert_key(v.publish, p, PUBLISH_QOS2), p);
    let u = after_outgoing(v, OutgoingRequest::PublishQoS2(p));
    lemma_insert_key(u.pubrel_pending, p, PUBREL_AWAITING_APPLICATION);
    assert(lookup(insert_key(v.publish, p, PUBLISH_QOS2), p) == Some(PUBLISH_QOS2));
    assert(has_key(insert_key(v.publish, p, PUBLISH_QOS2), p));
}

/// A refused CONNACK changes nothing and cancels nothing. An accepting one connects the session
/// and moves its connection epoch one on; without session present it drops everything in flight
/// and every inbound PUBLISH held, and moves the session generation one on; with session present
/// it keeps them. The PINGREQ interval is the server's keep alive if the CONNACK names one, else
/// the client's, and a keep alive of no duration sends no PINGREQ.
///
/// Ref: 3.2.2.1.1 Session Present; 3.2.2.3.14 Server Keep Alive
pub proof fn lemma_connack_effect(v: SessionView, c: ConnAck, client_keep_alive: KeepAlive)
    ensures
        c.reason_code is Refused ==> after_connack(v, c, client_keep_alive) == v
            && connack_cancellations(v, c) == Set::<Cancellation>::empty(),
        c.reason_code matches ConnectReasonCode::Success { session_present } ==> {
            let w = after_connack(v, c, client_keep_alive);
            let k = match c.other_properties.server_keep_alive {
                Some(k) => k,
                None => client_keep_alive,
            };
            &&& w.connected
            &&& v.connection_epoch < u64::MAX ==> w.connection_epoch == v.connection_epoch + 1
            &&& (k is Infinite ==> w.ping_interval is None)
            &&& (k matches KeepAlive::Duration(d) ==> w.ping_interval == Some(d@))
            &&& session_present ==> w.publish == v.publish && w.pubrel == v.pubrel
                && w.in_application == v.in_application && w.session_generation
                == v.session_generation && connack_cancellations(v, c) == Set::<Cancellation>::empty()
            &&& !session_present ==> w.publish.len() == 0 && w.pubrel.len() == 0
                && w.pubrel_pending.len() == 0 && w.in_application.len() == 0 && (v.session_generation
                < u64::MAX ==> w.session_generation == v.session_generation + 1)
        },
{
}

/// An inbound QoS 0 PUBLISH always reaches the application and owes nothing; a QoS 1 PUBLISH
/// always reaches it, with a PUBACK token of the connection it came on; a QoS 2 PUBLISH reaches it
/// at most once: the same one received again is not handed over a second time, and one the
/// session knows nothing of is handed over with a PUBREC token of the session.
///
/// Ref: 4.3 Quality of Service levels and protocol flows
pub proof fn lemma_incoming_publish_delivery(v: SessionView, p: PacketIdentifier, dup1: bool, dup2: bool)
    ensures
        after_incoming_publish(v, PacketIdentifierDupQoS::AtMostOnce) == (v, Some(IncomingDelivery::QoS0)),
        after_incoming_publish(v, PacketIdentifierDupQoS::AtLeastOnce(p, dup1)).1 == Some(
            IncomingDelivery::QoS1 { packet_identifier: p@, connection_epoch: v.connection_epoch },
        ),
        ({
            let (w, d) = after_incoming_publish(v, PacketIdentifierDupQoS::ExactlyOnce(p, dup1));
            &&& d is Some ==> d == Some(
                IncomingDelivery::QoS2 { packet_identifier: p@, session_generation: v.session_generation },
            )
            &&& !v.incoming_pubrec.contains(p@) && !has_key(v.in_application, p@)
                && !v.incoming_pubcomp.contains(p@) ==> d is Some
            &&& after_incoming_publish(w, PacketIdentifierDupQoS::ExactlyOnce(p, dup2)).1 is None
        }),
{
    let (w, d) = after_incoming_publish(v, PacketIdentifierDupQoS::ExactlyOnce(p, dup1));
    if d is Some {
        let n = v.in_application.len() as int;
        assert(w.in_application[n].0 == p@);
        assert(has_key(w.in_application, p@));
    }
}

} // verus!
