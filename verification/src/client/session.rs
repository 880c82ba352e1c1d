//! The MQTT session state of a client: which operations are in flight under which packet
//! identifiers, which acknowledgements the application still owes, and which packets must be
//! sent again after a reconnect.
//!
//! The session decides; it does not do I/O. Each method takes an event (a packet received, a
//! request of the application, a disconnect) and answers with what follows from it: which
//! waiting caller to complete or cancel, and which packets to send. Packet contents and the
//! callers' completion handles stay with the code that drives the connection, keyed by packet
//! identifier.
use indexmap::IndexMap;
use std::collections::{HashSet, VecDeque};
use vstd::prelude::*;

use crate::client::pkid::{cyclic, PkidPool, PkidPoolView};
use crate::error::{ProtocolError, ProtocolErrorRepr};
use crate::mqtt_proto::auth::Auth;
use crate::mqtt_proto::codes::AuthenticateReasonCode;
use crate::mqtt_proto::connack::{ConnAck, ConnectReasonCode};
use crate::mqtt_proto::disconnect::Disconnect;
use crate::mqtt_proto::property::{KeepAlive, SessionExpiryInterval};
use crate::mqtt_proto::{PacketIdentifier, PacketIdentifierDupQoS};

pub mod index_map;
pub mod laws;

use index_map::{
    has_key, index_map_entries, insert_key, keys_unique, lookup, map_clear, map_get,
    map_get_index, map_insert, map_len, map_new, map_shift_remove, map_shift_remove_index,
    remove_key, set_value, values_between,
};

verus! {

broadcast use vstd::std_specs::hash::group_hash_axioms;

/// An outgoing PUBLISH in flight at QoS 1.
pub const PUBLISH_QOS1: u8 = 1;

/// An outgoing PUBLISH in flight at QoS 2.
pub const PUBLISH_QOS2: u8 = 2;

/// A successful PUBREC received; the application has not yet asked to send PUBREL.
pub const PUBREL_AWAITING_APPLICATION: u8 = 0;

/// A successful PUBREC received; the application's PUBREL is ready to be sent.
pub const PUBREL_READY: u8 = 1;

/// A PUBREL the application sent.
pub const PUBREL_FROM_APPLICATION: u8 = 0;

/// A PUBREL the session sent by itself, for a PUBREC that matched no PUBLISH.
pub const PUBREL_RECOVERY: u8 = 1;

/// An inbound QoS 1 PUBLISH whose PUBACK the application has not yet given.
pub const INCOMING_QOS1: u8 = 1;

/// An inbound QoS 2 PUBLISH whose PUBREC the application has not yet given.
pub const INCOMING_QOS2: u8 = 2;

/// An inbound QoS 1 PUBLISH whose PUBACK is ready, waiting for those received before it.
pub const INCOMING_QOS1_READY: u8 = 3;

/// An inbound QoS 2 PUBLISH whose PUBREC is ready, waiting for those received before it.
pub const INCOMING_QOS2_READY: u8 = 4;

/// A packet the session queues by itself, named by what it holds; the code that drives the
/// connection keeps the packets and builds them.
#[derive(Clone, Copy, Debug, PartialEq, Eq, Structural)]
pub enum QueuedPacket {
    /// The outgoing PUBLISH in flight under this identifier, sent again with its DUP flag set.
    Publish(u16),
    /// The PUBREL kept under this identifier: one the application sent, or, if `recovery`, one
    /// with reason "Packet Identifier not found".
    PubRel { packet_identifier: u16, recovery: bool },
    /// The PUBREC kept for the inbound QoS 2 PUBLISH under this identifier.
    PubRec(u16),
    /// A PUBCOMP with reason "Packet Identifier not found".
    PubCompNotFound(u16),
}

/// The state of a session.
#[verifier::ext_equal]
pub struct SessionView {
    /// The packet identifiers leased for outgoing operations.
    pub pool: PkidPoolView,
    /// Outgoing QoS 1 and QoS 2 PUBLISHes in flight, in the order they were sent, with their QoS.
    pub publish: Seq<(u16, u8)>,
    /// Outgoing SUBSCRIBEs in flight.
    pub subscribe: Set<u16>,
    /// Outgoing UNSUBSCRIBEs in flight.
    pub unsubscribe: Set<u16>,
    /// Successful PUBRECs received, in the order received, with whether PUBREL is ready.
    pub pubrel_pending: Seq<(u16, u8)>,
    /// Outgoing PUBRELs awaiting PUBCOMP, with where they came from.
    pub pubrel: Seq<(u16, u8)>,
    /// Inbound QoS 2 PUBLISHes accepted by a PUBREC sent, awaiting PUBREL.
    pub incoming_pubrec: Set<u16>,
    /// Inbound PUBRELs received, awaiting the application's PUBCOMP.
    pub incoming_pubcomp: Set<u16>,
    /// Inbound PUBLISHes handed to the application, in the order received, with their state.
    pub in_application: Seq<(u16, u8)>,
    /// Whether an AUTH of a re-authentication is in flight.
    pub auth: bool,
    /// Packets the session generated in answer to packets received, in order.
    pub connection_packets: Seq<QueuedPacket>,
    /// Packets to send again after a reconnect, in order.
    pub packets_to_replay: Seq<QueuedPacket>,
    /// Whether a connection is established.
    pub connected: bool,
    /// The number of connections established; it tells stale PUBACK requests apart.
    pub connection_epoch: u64,
    /// The number of times the session expired; it tells stale QoS 2 requests apart.
    pub session_generation: u64,
    /// Whether the session ends with its connection.
    pub transient: bool,
    /// The keep-alive interval, in seconds, after which a PINGREQ is due, if any.
    pub ping_interval: Option<u16>,
}

/// Tracks the MQTT session state of a client.
pub struct Session {
    pkid_pool: PkidPool,
    publish: IndexMap<u16, u8>,
    subscribe: HashSet<u16>,
    unsubscribe: HashSet<u16>,
    pubrel_pending: IndexMap<u16, u8>,
    pubrel: IndexMap<u16, u8>,
    incoming_pubrec: HashSet<u16>,
    incoming_pubcomp: HashSet<u16>,
    in_application: IndexMap<u16, u8>,
    auth: bool,
    connection_packets: VecDeque<QueuedPacket>,
    packets_to_replay: VecDeque<QueuedPacket>,
    connected: bool,
    connection_epoch: u64,
    session_generation: u64,
    transient: bool,
    ping_interval: Option<u16>,
}

impl View for Session {
    type V = SessionView;

    closed spec fn view(&self) -> SessionView {
        SessionView {
            pool: self.pkid_pool@,
            publish: index_map_entries(self.publish),
            subscribe: self.subscribe@,
            unsubscribe: self.unsubscribe@,
            pubrel_pending: index_map_entries(self.pubrel_pending),
            pubrel: index_map_entries(self.pubrel),
            incoming_pubrec: self.incoming_pubrec@,
            incoming_pubcomp: self.incoming_pubcomp@,
            in_application: index_map_entries(self.in_application),
            auth: self.auth,
            connection_packets: self.connection_packets@,
            packets_to_replay: self.packets_to_replay@,
            connected: self.connected,
            connection_epoch: self.connection_epoch,
            session_generation: self.session_generation,
            transient: self.transient,
            ping_interval: self.ping_interval,
        }
    }
}

impl SessionView {
    /// What every session keeps: a valid pool, no identifier twice in an ordered tracker, and
    /// only the state codes each tracker knows.
    pub open spec fn valid(self) -> bool {
        &&& self.pool.valid()
        &&& keys_unique(self.publish)
        &&& keys_unique(self.pubrel_pending)
        &&& keys_unique(self.pubrel)
        &&& keys_unique(self.in_application)
        &&& values_between(self.publish, PUBLISH_QOS1, PUBLISH_QOS2)
        &&& values_between(self.pubrel_pending, PUBREL_AWAITING_APPLICATION, PUBREL_READY)
        &&& values_between(self.pubrel, PUBREL_FROM_APPLICATION, PUBREL_RECOVERY)
        &&& values_between(self.in_application, INCOMING_QOS1, INCOMING_QOS2_READY)
        &&& self.subscribe.finite()
        &&& self.unsubscribe.finite()
        &&& self.incoming_pubrec.finite()
        &&& self.incoming_pubcomp.finite()
    }
}

/// An acknowledgement the application gave for a packet received, ready to be sent once the
/// acknowledgements owed before it are.
#[derive(Clone, Copy, Debug, PartialEq, Eq, Structural)]
pub enum ReadyAcknowledgement {
    /// The PUBACK or PUBREC for the inbound PUBLISH under this identifier.
    Incoming(u16),
    /// The PUBREL for the outgoing QoS 2 PUBLISH under this identifier.
    PubRel(u16),
}

/// The kinds of acknowledgement the application asks the session to send.
#[derive(Clone, Copy, Debug, PartialEq, Eq, Structural)]
pub enum AcknowledgementKind {
    /// A PUBACK for an inbound QoS 1 PUBLISH.
    PubAck,
    /// A successful PUBREC for an inbound QoS 2 PUBLISH.
    PubRecAccept,
    /// A failed PUBREC for an inbound QoS 2 PUBLISH.
    PubRecReject,
    /// A PUBREL for an outgoing QoS 2 PUBLISH.
    PubRel,
    /// A PUBCOMP for an inbound PUBREL.
    PubComp,
}

/// A request of the application to send an acknowledgement: its kind, its packet identifier,
/// and the connection epoch (for PUBACK) or session generation (otherwise) it was issued in.
#[derive(Clone, Copy, Debug, PartialEq, Eq, Structural)]
pub struct AcknowledgementRequest {
    pub kind: AcknowledgementKind,
    pub packet_identifier: u16,
    pub stamp: u64,
}

/// What becomes of an acknowledgement request.
#[derive(Clone, Copy, Debug, PartialEq, Eq, Structural)]
pub enum AcknowledgementRoute {
    /// The request is stale or not owed: cancel it.
    Cancel,
    /// The request is held until the acknowledgements owed before it are sent.
    Hold,
    /// The request is sent now.
    Send,
}

/// Whether an acknowledgement request matches what the session owes.
pub open spec fn acknowledgement_owed(v: SessionView, req: AcknowledgementRequest) -> bool {
    match req.kind {
        AcknowledgementKind::PubAck => req.stamp == v.connection_epoch && lookup(
            v.in_application,
            req.packet_identifier,
        ) == Some(INCOMING_QOS1),
        AcknowledgementKind::PubRecAccept | AcknowledgementKind::PubRecReject => req.stamp
            == v.session_generation && lookup(v.in_application, req.packet_identifier) == Some(
            INCOMING_QOS2,
        ),
        AcknowledgementKind::PubRel => req.stamp == v.session_generation && lookup(
            v.pubrel_pending,
            req.packet_identifier,
        ) == Some(PUBREL_AWAITING_APPLICATION),
        AcknowledgementKind::PubComp => req.stamp == v.session_generation
            && v.incoming_pubcomp.contains(req.packet_identifier),
    }
}

/// A response of the server that completes an operation the client initiated.
#[derive(Clone, Copy, Debug, PartialEq, Eq, Structural)]
pub enum CompletedOperation {
    /// A PUBACK, answering a QoS 1 PUBLISH.
    PublishQoS1(u16),
    /// A PUBREC, answering a QoS 2 PUBLISH; `success` if its reason code is a success.
    PublishQoS2 { packet_identifier: u16, success: bool },
    /// A PUBREL, answering a PUBREC the client sent.
    PubRec(u16),
    /// A PUBCOMP, answering a PUBREL the client sent.
    PubRel(u16),
    /// A SUBACK.
    Subscribe(u16),
    /// An UNSUBACK.
    Unsubscribe(u16),
}

/// Whom a response of the server completes.
#[derive(Clone, Copy, Debug, PartialEq, Eq, Structural)]
pub enum Completion {
    /// Nobody: the session answered it by itself, if at all.
    Nothing,
    /// The caller of the SUBSCRIBE under this identifier.
    Subscribe(u16),
    /// The caller of the UNSUBSCRIBE under this identifier.
    Unsubscribe(u16),
    /// The caller of the QoS 1 PUBLISH under this identifier.
    PublishQoS1(u16),
    /// The caller of the QoS 2 PUBLISH under this identifier; if the PUBREC succeeded, with the
    /// session generation its PUBREL token belongs to.
    PublishQoS2 { packet_identifier: u16, pubrel_generation: Option<u64> },
    /// The application that accepted the inbound QoS 2 PUBLISH under this identifier, with the
    /// session generation its PUBCOMP token belongs to.
    PubRec { packet_identifier: u16, pubcomp_generation: u64 },
    /// The caller of the PUBREL under this identifier.
    PubRel(u16),
}

/// The pool with `p` no longer leased.
pub open spec fn released(v: SessionView, p: u16) -> PkidPoolView {
    PkidPoolView { leased: v.pool.leased.remove(p), ..v.pool }
}

/// The error of a packet that came unexpected.
pub open spec fn unexpected_packet() -> ProtocolError {
    ProtocolError(ProtocolErrorRepr::UnexpectedPacket)
}

/// The session after a response `op` of the server, and what it completes.
///
/// A SUBACK or UNSUBACK frees its packet identifier whether or not it was awaited. A PUBACK
/// completes a QoS 1 PUBLISH in flight. A PUBREC for a QoS 2 PUBLISH in flight starts the PUBREL
/// step if it succeeded and frees the identifier if not; for one whose PUBREL is awaited or
/// sent, it has the session wait or send that PUBREL again; for an unknown one, the session
/// sends a PUBREL with reason "Packet Identifier not found". A PUBREL for an accepted inbound
/// PUBLISH moves it to awaiting PUBCOMP; for an unknown one, the session sends a PUBCOMP with
/// reason "Packet Identifier not found". A PUBCOMP ends its PUBREL and frees the identifier of
/// one the application sent.
pub open spec fn after_completion(v: SessionView, op: CompletedOperation) -> (
    SessionView,
    Result<Completion, ProtocolError>,
) {
    match op {
        CompletedOperation::Subscribe(p) => {
            let w = SessionView { pool: released(v, p), subscribe: v.subscribe.remove(p), ..v };
            if v.subscribe.contains(p) {
                (w, Ok(Completion::Subscribe(p)))
            } else {
                (w, Err(unexpected_packet()))
            }
        },
        CompletedOperation::Unsubscribe(p) => {
            let w = SessionView {
                pool: released(v, p),
                unsubscribe: v.unsubscribe.remove(p),
                ..v
            };
            if v.unsubscribe.contains(p) {
                (w, Ok(Completion::Unsubscribe(p)))
            } else {
                (w, Err(unexpected_packet()))
            }
        },
        CompletedOperation::PublishQoS1(p) => {
            if lookup(v.publish, p) == Some(PUBLISH_QOS1) {
                (
                    SessionView { pool: released(v, p), publish: remove_key(v.publish, p), ..v },
                    Ok(Completion::PublishQoS1(p)),
                )
            } else {
                (v, Err(unexpected_packet()))
            }
        },
        CompletedOperation::PublishQoS2 { packet_identifier: p, success } => {
            if lookup(v.publish, p) == Some(PUBLISH_QOS1) {
                (v, Err(unexpected_packet()))
            } else if has_key(v.publish, p) {
                if success {
                    (
                        SessionView {
                            publish: remove_key(v.publish, p),
                            pubrel_pending: insert_key(
                                v.pubrel_pending,
                                p,
                                PUBREL_AWAITING_APPLICATION,
                            ),
                            ..v
                        },
                        Ok(
                            Completion::PublishQoS2 {
                                packet_identifier: p,
                                pubrel_generation: Some(v.session_generation),
                            },
                        ),
                    )
                } else {
                    (
                        SessionView {
                            pool: released(v, p),
                            publish: remove_key(v.publish, p),
                            ..v
                        },
                        Ok(Completion::PublishQoS2 { packet_identifier: p, pubrel_generation: None }),
                    )
                }
            } else if has_key(v.pubrel_pending, p) {
                (v, Ok(Completion::Nothing))
            } else if has_key(v.pubrel, p) {
                (
                    SessionView {
                        connection_packets: v.connection_packets.push(
                            QueuedPacket::PubRel {
                                packet_identifier: p,
                                recovery: lookup(v.pubrel, p) == Some(PUBREL_RECOVERY),
                            },
                        ),
                        ..v
                    },
                    Ok(Completion::Nothing),
                )
            } else {
                (
                    SessionView {
                        pubrel: v.pubrel.push((p, PUBREL_RECOVERY)),
                        connection_packets: v.connection_packets.push(
                            QueuedPacket::PubRel { packet_identifier: p, recovery: true },
                        ),
                        ..v
                    },
                    Ok(Completion::Nothing),
                )
            }
        },
        CompletedOperation::PubRec(p) => {
            if v.incoming_pubrec.contains(p) {
                (
                    SessionView {
                        incoming_pubrec: v.incoming_pubrec.remove(p),
                        incoming_pubcomp: v.incoming_pubcomp.insert(p),
                        ..v
                    },
                    Ok(
                        Completion::PubRec {
                            packet_identifier: p,
                            pubcomp_generation: v.session_generation,
                        },
                    ),
                )
            } else if !v.incoming_pubcomp.contains(p) {
                (
                    SessionView {
                        connection_packets: v.connection_packets.push(
                            QueuedPacket::PubCompNotFound(p),
                        ),
                        ..v
                    },
                    Ok(Completion::Nothing),
                )
            } else {
                (v, Ok(Completion::Nothing))
            }
        },
        CompletedOperation::PubRel(p) => {
            if !has_key(v.pubrel, p) {
                (v, Err(unexpected_packet()))
            } else if lookup(v.pubrel, p) == Some(PUBREL_FROM_APPLICATION) {
                (
                    SessionView { pool: released(v, p), pubrel: remove_key(v.pubrel, p), ..v },
                    Ok(Completion::PubRel(p)),
                )
            } else {
                (SessionView { pubrel: remove_key(v.pubrel, p), ..v }, Ok(Completion::Nothing))
            }
        },
    }
}

/// A caller or held request that a disconnect or the end of the session cancels.
#[derive(Clone, Copy, Debug, PartialEq, Eq, Structural)]
pub enum Cancellation {
    /// The caller of the outgoing QoS 1 or QoS 2 PUBLISH under this identifier.
    Publish(u16),
    /// The caller of the SUBSCRIBE under this identifier.
    Subscribe(u16),
    /// The caller of the UNSUBSCRIBE under this identifier.
    Unsubscribe(u16),
    /// The caller of the AUTH of a re-authentication.
    Auth,
    /// The application that accepted the inbound QoS 2 PUBLISH under this identifier, awaiting
    /// PUBREL.
    IncomingPubRec(u16),
    /// The caller of the PUBREL under this identifier.
    PubRel(u16),
    /// The acknowledgement the application gave for the inbound PUBLISH under this identifier,
    /// held back.
    Acknowledgement(u16),
    /// The PUBREL the application gave for the outgoing QoS 2 PUBLISH under this identifier,
    /// held back.
    HeldPubRel(u16),
}

/// What draining an ordered tracker cancels and frees.
#[derive(Clone, Copy, Debug, PartialEq, Eq, Structural)]
pub enum Drain {
    /// Outgoing PUBLISHes: each is cancelled and frees its identifier.
    Publish,
    /// Successful PUBRECs received: a held PUBREL is cancelled; each frees its identifier.
    PubRelPending,
    /// Outgoing PUBRELs: one from the application is cancelled and frees its identifier.
    PubRel,
    /// Inbound PUBLISHes with the application: a held acknowledgement is cancelled.
    InApplication,
}

/// Whether draining an entry with state `c` cancels something.
pub open spec fn drain_cancels(d: Drain, c: u8) -> bool {
    match d {
        Drain::Publish => true,
        Drain::PubRelPending => c == PUBREL_READY,
        Drain::PubRel => c == PUBREL_FROM_APPLICATION,
        Drain::InApplication => c >= INCOMING_QOS1_READY,
    }
}

/// Whether draining an entry with state `c` frees its identifier.
pub open spec fn drain_releases(d: Drain, c: u8) -> bool {
    match d {
        Drain::Publish => true,
        Drain::PubRelPending => true,
        Drain::PubRel => c == PUBREL_FROM_APPLICATION,
        Drain::InApplication => false,
    }
}

/// What draining the entry under `k` cancels.
pub open spec fn drain_cancellation(d: Drain, k: u16) -> Cancellation {
    match d {
        Drain::Publish => Cancellation::Publish(k),
        Drain::PubRelPending => Cancellation::HeldPubRel(k),
        Drain::PubRel => Cancellation::PubRel(k),
        Drain::InApplication => Cancellation::Acknowledgement(k),
    }
}

/// Everything draining the entries `s` cancels.
pub open spec fn drained_cancellations(d: Drain, s: Seq<(u16, u8)>) -> Set<Cancellation> {
    Set::new(
        |x: Cancellation|
            exists|i: int|
                0 <= i < s.len() && drain_cancels(d, s[i].1) && x == drain_cancellation(d, s[i].0),
    )
}

/// Every identifier draining the entries `s` frees.
pub open spec fn drained_releases(d: Drain, s: Seq<(u16, u8)>) -> Set<u16> {
    Set::new(|k: u16| exists|i: int| 0 <= i < s.len() && drain_releases(d, s[i].1) && k == s[i].0)
}

/// What draining an unordered tracker cancels and frees.
#[derive(Clone, Copy, Debug, PartialEq, Eq, Structural)]
pub enum SetDrain {
    /// SUBSCRIBEs in flight: each is cancelled and frees its identifier.
    Subscribe,
    /// UNSUBSCRIBEs in flight: each is cancelled and frees its identifier.
    Unsubscribe,
    /// Accepted inbound QoS 2 PUBLISHes: each is cancelled.
    IncomingPubRec,
}

/// What draining the identifier `k` cancels.
pub open spec fn set_drain_cancellation(d: SetDrain, k: u16) -> Cancellation {
    match d {
        SetDrain::Subscribe => Cancellation::Subscribe(k),
        SetDrain::Unsubscribe => Cancellation::Unsubscribe(k),
        SetDrain::IncomingPubRec => Cancellation::IncomingPubRec(k),
    }
}

/// The identifiers draining `set` frees.
pub open spec fn set_drained_releases(d: SetDrain, set: Set<u16>) -> Set<u16> {
    match d {
        SetDrain::IncomingPubRec => Set::empty(),
        _ => set,
    }
}

/// Everything draining `set` cancels.
pub open spec fn set_drained_cancellations(d: SetDrain, set: Set<u16>) -> Set<Cancellation> {
    Set::new(|x: Cancellation| exists|k: u16| set.contains(k) && x == set_drain_cancellation(d, k))
}

/// The identifiers the end of the session frees: those of outgoing PUBLISHes, of PUBRELs
/// awaited or from the application.
pub open spec fn expiry_releases(v: SessionView) -> Set<u16> {
    drained_releases(Drain::Publish, v.publish).union(
        drained_releases(Drain::PubRelPending, v.pubrel_pending),
    ).union(drained_releases(Drain::PubRel, v.pubrel))
}

/// What the end of the session cancels: outgoing PUBLISHes, accepted inbound QoS 2 PUBLISHes,
/// held PUBRELs, PUBRELs from the application and held acknowledgements.
pub open spec fn expiry_cancellations(v: SessionView) -> Set<Cancellation> {
    drained_cancellations(Drain::Publish, v.publish).union(
        set_drained_cancellations(SetDrain::IncomingPubRec, v.incoming_pubrec),
    ).union(drained_cancellations(Drain::PubRelPending, v.pubrel_pending)).union(
        drained_cancellations(Drain::PubRel, v.pubrel),
    ).union(drained_cancellations(Drain::InApplication, v.in_application))
}

/// The session once the server no longer holds it: nothing of it is in flight or owed, and
/// its generation moves on.
pub open spec fn after_expiry(v: SessionView) -> SessionView {
    SessionView {
        pool: PkidPoolView { leased: v.pool.leased.difference(expiry_releases(v)), ..v.pool },
        publish: Seq::empty(),
        pubrel_pending: Seq::empty(),
        pubrel: Seq::empty(),
        in_application: Seq::empty(),
        incoming_pubrec: Set::empty(),
        incoming_pubcomp: Set::empty(),
        connection_packets: Seq::empty(),
        packets_to_replay: Seq::empty(),
        session_generation: (v.session_generation + 1) as u64,
        ..v
    }
}

/// Whether an inbound PUBLISH with the application outlives its connection: QoS 2 ones belong
/// to the session.
pub open spec fn outlives_connection(e: (u16, u8)) -> bool {
    e.1 == INCOMING_QOS2 || e.1 == INCOMING_QOS2_READY
}

/// The packets to send again on the next connection: the PUBRELs awaiting PUBCOMP, then the
/// PUBLISHes in flight with DUP set, each in its order.
pub open spec fn replay_of(v: SessionView) -> Seq<QueuedPacket> {
    v.pubrel.map_values(
        |e: (u16, u8)| QueuedPacket::PubRel { packet_identifier: e.0, recovery: e.1 == PUBREL_RECOVERY },
    ) + v.publish.map_values(|e: (u16, u8)| QueuedPacket::Publish(e.0))
}

/// The held acknowledgements of inbound QoS 1 PUBLISHes.
pub open spec fn held_qos1_acknowledgements(v: SessionView) -> Set<Cancellation> {
    Set::new(
        |x: Cancellation|
            exists|i: int|
                0 <= i < v.in_application.len() && v.in_application[i].1 == INCOMING_QOS1_READY && x
                    == Cancellation::Acknowledgement(v.in_application[i].0),
    )
}

/// What the end of a connection cancels: SUBSCRIBEs, UNSUBSCRIBEs and an AUTH in flight, and
/// the held acknowledgements of inbound QoS 1 PUBLISHes.
pub open spec fn disconnect_cancellations(v: SessionView) -> Set<Cancellation> {
    set_drained_cancellations(SetDrain::Subscribe, v.subscribe).union(
        set_drained_cancellations(SetDrain::Unsubscribe, v.unsubscribe),
    ).union(
        if v.auth {
            Set::empty().insert(Cancellation::Auth)
        } else {
            Set::empty()
        },
    ).union(held_qos1_acknowledgements(v))
}

/// The session once its connection ended: what belongs to the connection is dropped, and the
/// PUBRELs and PUBLISHes in flight are queued to be sent again.
pub open spec fn after_disconnect(v: SessionView) -> SessionView {
    SessionView {
        connected: false,
        ping_interval: None,
        connection_packets: Seq::empty(),
        pool: PkidPoolView {
            leased: v.pool.leased.difference(v.subscribe).difference(v.unsubscribe),
            ..v.pool
        },
        subscribe: Set::empty(),
        unsubscribe: Set::empty(),
        auth: false,
        in_application: v.in_application.filter(|e: (u16, u8)| outlives_connection(e)),
        packets_to_replay: replay_of(v),
        ..v
    }
}

/// The session once its connection ended, made transient if `make_transient`: a transient
/// session ends with its connection.
pub open spec fn after_disconnect_event(v: SessionView, make_transient: bool) -> SessionView {
    let w = SessionView { transient: v.transient || make_transient, ..after_disconnect(v) };
    if w.transient {
        after_expiry(w)
    } else {
        w
    }
}

/// What the end of a connection cancels, with what the end of the session does if it is
/// transient.
pub open spec fn disconnect_event_cancellations(v: SessionView, make_transient: bool) -> Set<
    Cancellation,
> {
    let w = SessionView { transient: v.transient || make_transient, ..after_disconnect(v) };
    disconnect_cancellations(v).union(
        if w.transient {
            expiry_cancellations(w)
        } else {
            Set::empty()
        },
    )
}

/// Whether a DISCONNECT or CONNACK sets the session expiry interval to zero.
pub open spec fn expires_at_once(interval: Option<SessionExpiryInterval>) -> bool {
    interval == Some(SessionExpiryInterval::Duration(0))
}

/// How an inbound PUBLISH is handed to the application.
#[derive(Clone, Copy, Debug, PartialEq, Eq, Structural)]
pub enum IncomingDelivery {
    /// At QoS 0: nothing is owed for it.
    QoS0,
    /// At QoS 1, with a PUBACK token of the given connection epoch.
    QoS1 { packet_identifier: u16, connection_epoch: u64 },
    /// At QoS 2, with a PUBREC token of the given session generation.
    QoS2 { packet_identifier: u16, session_generation: u64 },
}

/// The session after an inbound PUBLISH with the QoS and packet identifier `qos`, and how it
/// reaches the application: a QoS 2 PUBLISH already accepted is answered by its PUBREC again,
/// and one already with the application or completed is dropped.
pub open spec fn after_incoming_publish(v: SessionView, qos: PacketIdentifierDupQoS) -> (
    SessionView,
    Option<IncomingDelivery>,
) {
    match qos {
        PacketIdentifierDupQoS::AtMostOnce => (v, Some(IncomingDelivery::QoS0)),
        PacketIdentifierDupQoS::AtLeastOnce(p, _) => (
            SessionView { in_application: v.in_application.push((p@, INCOMING_QOS1)), ..v },
            Some(
                IncomingDelivery::QoS1 {
                    packet_identifier: p@,
                    connection_epoch: v.connection_epoch,
                },
            ),
        ),
        PacketIdentifierDupQoS::ExactlyOnce(p, _) => {
            if v.incoming_pubrec.contains(p@) {
                (
                    SessionView {
                        connection_packets: v.connection_packets.push(QueuedPacket::PubRec(p@)),
                        ..v
                    },
                    None,
                )
            } else if has_key(v.in_application, p@) || v.incoming_pubcomp.contains(p@) {
                (v, None)
            } else {
                (
                    SessionView {
                        in_application: v.in_application.push((p@, INCOMING_QOS2)),
                        ..v
                    },
                    Some(
                        IncomingDelivery::QoS2 {
                            packet_identifier: p@,
                            session_generation: v.session_generation,
                        },
                    ),
                )
            }
        },
    }
}

/// What an inbound AUTH completes.
#[derive(Clone, Copy, Debug, PartialEq, Eq, Structural)]
pub enum AuthOutcome {
    /// The re-authentication succeeded.
    Success,
    /// The server continues the re-authentication: the caller gets a token to answer with.
    Continue,
}

/// The session after an inbound AUTH with reason `reason`, and what it completes: success or
/// continuation of a re-authentication in flight; anything else is an unexpected packet.
pub open spec fn after_incoming_auth(v: SessionView, reason: AuthenticateReasonCode) -> (
    SessionView,
    Result<AuthOutcome, ProtocolError>,
) {
    match reason {
        AuthenticateReasonCode::ReAuthenticate => (v, Err(unexpected_packet())),
        _ => {
            if !v.auth {
                (v, Err(unexpected_packet()))
            } else {
                (
                    SessionView { auth: false, ..v },
                    Ok(
                        if reason is Success {
                            AuthOutcome::Success
                        } else {
                            AuthOutcome::Continue
                        },
                    ),
                )
            }
        },
    }
}

/// The keep alive in force after a CONNACK: the server's if it sent one, else the client's.
pub open spec fn connack_keep_alive(connack: ConnAck, client_keep_alive: KeepAlive) -> KeepAlive {
    match connack.other_properties.server_keep_alive {
        Some(k) => k,
        None => client_keep_alive,
    }
}

/// The session after a CONNACK: on success, a session the server does not hold any longer
/// ends, the epoch moves on, a session expiry interval of zero makes the session transient, the
/// keep alive in force sets the PINGREQ interval, and the session is connected; a refused
/// connection changes nothing.
pub open spec fn after_connack(v: SessionView, connack: ConnAck, client_keep_alive: KeepAlive) -> SessionView {
    match connack.reason_code {
        ConnectReasonCode::Success { session_present } => {
            let w = if session_present {
                v
            } else {
                after_expiry(v)
            };
            SessionView {
                connection_epoch: (w.connection_epoch + 1) as u64,
                transient: w.transient || expires_at_once(
                    connack.other_properties.session_expiry_interval,
                ),
                ping_interval: match connack_keep_alive(connack, client_keep_alive) {
                    KeepAlive::Duration(d) => Some(d@),
                    KeepAlive::Infinite => None,
                },
                connected: true,
                ..w
            }
        },
        ConnectReasonCode::Refused(_) => v,
    }
}

/// What a CONNACK cancels: everything of an ended session, if the server no longer holds it.
pub open spec fn connack_cancellations(v: SessionView, connack: ConnAck) -> Set<Cancellation> {
    match connack.reason_code {
        ConnectReasonCode::Success { session_present } => {
            if session_present {
                Set::empty()
            } else {
                expiry_cancellations(v)
            }
        },
        ConnectReasonCode::Refused(_) => Set::empty(),
    }
}

/// The session after taking the next acknowledgement ready to be sent in order, and that
/// acknowledgement: the one for the inbound PUBLISH received first, once it is ready; else the
/// PUBREL for the successful PUBREC received first, once it is ready.
pub open spec fn after_ready_acknowledgement(v: SessionView) -> (
    SessionView,
    Option<ReadyAcknowledgement>,
) {
    if v.in_application.len() > 0 && v.in_application[0].1 >= INCOMING_QOS1_READY {
        (
            SessionView { in_application: v.in_application.drop_first(), ..v },
            Some(ReadyAcknowledgement::Incoming(v.in_application[0].0)),
        )
    } else if v.pubrel_pending.len() > 0 && v.pubrel_pending[0].1 == PUBREL_READY {
        (
            SessionView { pubrel_pending: v.pubrel_pending.drop_first(), ..v },
            Some(ReadyAcknowledgement::PubRel(v.pubrel_pending[0].0)),
        )
    } else {
        (v, None)
    }
}

/// The session after an acknowledgement request of the application, and what becomes of it:
/// one not owed is cancelled; an owed PUBACK, PUBREC or PUBREL is marked ready and held; an
/// owed PUBCOMP is sent.
pub open spec fn after_route(v: SessionView, req: AcknowledgementRequest) -> (
    SessionView,
    AcknowledgementRoute,
) {
    let p = req.packet_identifier;
    if !acknowledgement_owed(v, req) {
        (v, AcknowledgementRoute::Cancel)
    } else {
        match req.kind {
            AcknowledgementKind::PubAck => (
                SessionView {
                    in_application: set_value(v.in_application, p, INCOMING_QOS1_READY),
                    ..v
                },
                AcknowledgementRoute::Hold,
            ),
            AcknowledgementKind::PubRecAccept | AcknowledgementKind::PubRecReject => (
                SessionView {
                    in_application: set_value(v.in_application, p, INCOMING_QOS2_READY),
                    ..v
                },
                AcknowledgementRoute::Hold,
            ),
            AcknowledgementKind::PubRel => (
                SessionView { pubrel_pending: set_value(v.pubrel_pending, p, PUBREL_READY), ..v },
                AcknowledgementRoute::Hold,
            ),
            AcknowledgementKind::PubComp => (
                SessionView { incoming_pubcomp: v.incoming_pubcomp.remove(p), ..v },
                AcknowledgementRoute::Send,
            ),
        }
    }
}

/// The state after leasing the packet identifier `p` from the pool of `v`.
pub open spec fn after_lease(v: SessionView, p: u16) -> SessionView {
    SessionView {
        pool: PkidPoolView {
            leased: v.pool.leased.insert(p),
            cursor: cyclic(p as int, 1, v.pool.max as int) as u16,
            ..v.pool
        },
        ..v
    }
}

/// Which kinds of requests are waiting to be sent.
#[derive(Clone, Copy, Debug, PartialEq, Eq, Structural)]
pub struct PendingRequests {
    pub disconnect: bool,
    pub acknowledgement: bool,
    pub reauth: bool,
    pub subscribe: bool,
    pub publish_qos0: bool,
    pub publish_qos12: bool,
    /// A PINGREQ is due.
    pub ping_due: bool,
}

/// What to send next.
#[derive(Clone, Copy, Debug, PartialEq, Eq, Structural)]
pub enum NextRequest {
    Disconnect,
    Acknowledgement,
    Reauth,
    /// A SUBSCRIBE, under the packet identifier leased for it.
    Subscribe(PacketIdentifier),
    PublishQoS0,
    /// A QoS 1 or QoS 2 PUBLISH, under the packet identifier leased for it.
    PublishQoS12(PacketIdentifier),
    PingReq,
    /// Nothing can be sent now.
    Wait,
}

/// An outgoing request of the application, turned into a packet to send, with the packet
/// identifier it was given.
#[derive(Clone, Copy, Debug, PartialEq, Eq, Structural)]
pub enum OutgoingRequest {
    /// A DISCONNECT.
    Disconnect,
    /// A PUBACK.
    PubAck(u16),
    /// A successful PUBREC.
    PubRecAccept(u16),
    /// A failed PUBREC.
    PubRecReject(u16),
    /// A PUBREL.
    PubRel(u16),
    /// A PUBCOMP.
    PubComp(u16),
    /// A SUBSCRIBE.
    Subscribe(u16),
    /// An UNSUBSCRIBE.
    Unsubscribe(u16),
    /// A PUBLISH at QoS 0.
    PublishQoS0,
    /// A PUBLISH at QoS 1.
    PublishQoS1(u16),
    /// A PUBLISH at QoS 2.
    PublishQoS2(u16),
    /// An AUTH of a re-authentication.
    Reauth,
    /// A PINGREQ.
    PingReq,
}

/// The session after sending the packet of `req`: what it awaits an answer to is tracked.
pub open spec fn after_outgoing(v: SessionView, req: OutgoingRequest) -> SessionView {
    match req {
        OutgoingRequest::PubRecAccept(p) => SessionView {
            incoming_pubrec: v.incoming_pubrec.insert(p),
            ..v
        },
        OutgoingRequest::PubRel(p) => SessionView {
            pubrel: insert_key(v.pubrel, p, PUBREL_FROM_APPLICATION),
            ..v
        },
        OutgoingRequest::Subscribe(p) => SessionView { subscribe: v.subscribe.insert(p), ..v },
        OutgoingRequest::Unsubscribe(p) => SessionView {
            unsubscribe: v.unsubscribe.insert(p),
            ..v
        },
        OutgoingRequest::PublishQoS1(p) => SessionView {
            publish: insert_key(v.publish, p, PUBLISH_QOS1),
            ..v
        },
        OutgoingRequest::PublishQoS2(p) => SessionView {
            publish: insert_key(v.publish, p, PUBLISH_QOS2),
            ..v
        },
        OutgoingRequest::Reauth => SessionView { auth: true, ..v },
        _ => v,
    }
}

/// Cancels and frees what draining the entries of `map` does, adding the cancellations to
/// `out`.
fn drain_entries(
    map: &IndexMap<u16, u8>,
    pool: &mut PkidPool,
    out: &mut Vec<Cancellation>,
    d: Drain,
)
    requires
        old(pool).wf(),
    ensures
        final(pool).wf(),
        final(pool)@ == (PkidPoolView {
            leased: old(pool)@.leased.difference(drained_releases(d, index_map_entries(*map))),
            ..old(pool)@
        }),
        final(out)@.to_set() == old(out)@.to_set().union(
            drained_cancellations(d, index_map_entries(*map)),
        ),
{
    let ghost s = index_map_entries(*map);
    let ghost pool0 = pool@;
    let ghost out0 = out@;
    let n = map_len(map);
    let mut i: usize = 0;
    while i < n
        invariant
            n == s.len(),
            s == index_map_entries(*map),
            i <= n,
            pool.wf(),
            pool@ == (PkidPoolView {
                leased: pool0.leased.difference(drained_releases(d, s.take(i as int))),
                ..pool0
            }),
            out@.to_set() == out0.to_set().union(drained_cancellations(d, s.take(i as int))),
        decreases n - i,
    {
        let entry = map_get_index(map, i);
        let (k, c) = match entry {
            Some(e) => e,
            None => (0, 0),
        };
        let ghost before = out@;
        proof {
            let t = s.take(i as int);
            let t1 = s.take(i + 1);
            assert(t1[i as int] == (k, c));
            assert forall|x: Cancellation|
                drained_cancellations(d, t1).contains(x) == (drained_cancellations(d, t).contains(x) || (
                drain_cancels(d, c) && x == drain_cancellation(d, k))) by {
                if drained_cancellations(d, t).contains(x) {
                    let j = choose|j: int|
                        0 <= j < t.len() && drain_cancels(d, t[j].1) && x == drain_cancellation(
                            d,
                            t[j].0,
                        );
                    assert(t1[j] == t[j]);
                }
                if drained_cancellations(d, t1).contains(x) {
                    let j = choose|j: int|
                        0 <= j < t1.len() && drain_cancels(d, t1[j].1) && x == drain_cancellation(
                            d,
                            t1[j].0,
                        );
                    if j < i {
                        assert(t[j] == t1[j]);
                    }
                }
                if drain_cancels(d, c) && x == drain_cancellation(d, k) {
                    assert(t1[i as int].1 == c);
                }
            }
            assert forall|x: u16|
                drained_releases(d, t1).contains(x) == (drained_releases(d, t).contains(x) || (
                drain_releases(d, c) && x == k)) by {
                if drained_releases(d, t).contains(x) {
                    let j = choose|j: int|
                        0 <= j < t.len() && drain_releases(d, t[j].1) && x == t[j].0;
                    assert(t1[j] == t[j]);
                }
                if drained_releases(d, t1).contains(x) {
                    let j = choose|j: int|
                        0 <= j < t1.len() && drain_releases(d, t1[j].1) && x == t1[j].0;
                    if j < i {
                        assert(t[j] == t1[j]);
                    }
                }
            }
        }
        if drain_cancels_exec(d, c) {
            out.push(drain_cancellation_exec(d, k));
            proof {
                assert(out@ == before.push(drain_cancellation(d, k)));
                before.lemma_push_to_set_commute(drain_cancellation(d, k));
            }
        }
        if drain_releases_exec(d, c) {
            release_from(pool, k);
        }
        proof {
            let t = s.take(i as int);
            let t1 = s.take(i + 1);
            assert(out@.to_set() =~= out0.to_set().union(drained_cancellations(d, t1)));
            assert(pool@.leased =~= pool0.leased.difference(drained_releases(d, t1)));
        }
        i = i + 1;
    }
    proof {
        assert(s.take(n as int) =~= s);
    }
}

/// Cancels and frees what draining the identifiers of `set` does, adding the cancellations to
/// `out`.
fn drain_set(set: &HashSet<u16>, pool: &mut PkidPool, out: &mut Vec<Cancellation>, d: SetDrain)
    requires
        old(pool).wf(),
    ensures
        final(pool).wf(),
        final(pool)@ == (PkidPoolView {
            leased: old(pool)@.leased.difference(set_drained_releases(d, set@)),
            ..old(pool)@
        }),
        final(out)@.to_set() == old(out)@.to_set().union(set_drained_cancellations(d, set@)),
{
    let ghost pool0 = pool@;
    let ghost out0 = out@;
    let iter = set.iter();
    let ghost keys = vstd::std_specs::hash::into_iter_hash_keys(iter);
    assert(keys.to_set() == set@);
    for k in it: iter
        invariant
            keys.to_set() == set@,
            it.seq().len() == keys.len(),
            forall|i: int| 0 <= i < keys.len() ==> *it.seq()[i] == keys[i],
            pool.wf(),
            pool@ == (PkidPoolView {
                leased: pool0.leased.difference(
                    set_drained_releases(d, keys.take(it.index() as int).to_set()),
                ),
                ..pool0
            }),
            out@.to_set() == out0.to_set().union(
                set_drained_cancellations(d, keys.take(it.index() as int).to_set()),
            ),
    {
        let ghost i = it.index() as int;
        let key: u16 = *k;
        let ghost before = out@;
        proof {
            assert(keys.take(i + 1) =~= keys.take(i).push(key));
            keys.take(i).lemma_push_to_set_commute(key);
        }
        match d {
            SetDrain::Subscribe => {
                out.push(Cancellation::Subscribe(key));
                release_from(pool, key);
            },
            SetDrain::Unsubscribe => {
                out.push(Cancellation::Unsubscribe(key));
                release_from(pool, key);
            },
            SetDrain::IncomingPubRec => {
                out.push(Cancellation::IncomingPubRec(key));
            },
        }
        proof {
            before.lemma_push_to_set_commute(set_drain_cancellation(d, key));
            let t = keys.take(i).to_set();
            let t1 = keys.take(i + 1).to_set();
            assert(t1 == t.insert(key));
            assert(set_drained_cancellations(d, t1) =~= set_drained_cancellations(d, t).insert(
                set_drain_cancellation(d, key),
            ));
            assert(out@.to_set() =~= out0.to_set().union(set_drained_cancellations(d, t1)));
            assert(pool@.leased =~= pool0.leased.difference(set_drained_releases(d, t1)));
        }
    }
    proof {
        assert(keys.take(keys.len() as int) =~= keys);
    }
}

/// Whether draining an entry with state `c` cancels something.
fn drain_cancels_exec(d: Drain, c: u8) -> (r: bool)
    ensures
        r == drain_cancels(d, c),
{
    match d {
        Drain::Publish => true,
        Drain::PubRelPending => c == PUBREL_READY,
        Drain::PubRel => c == PUBREL_FROM_APPLICATION,
        Drain::InApplication => c >= INCOMING_QOS1_READY,
    }
}

/// Whether draining an entry with state `c` frees its identifier.
fn drain_releases_exec(d: Drain, c: u8) -> (r: bool)
    ensures
        r == drain_releases(d, c),
{
    match d {
        Drain::Publish => true,
        Drain::PubRelPending => true,
        Drain::PubRel => c == PUBREL_FROM_APPLICATION,
        Drain::InApplication => false,
    }
}

/// What draining the entry under `k` cancels.
fn drain_cancellation_exec(d: Drain, k: u16) -> (r: Cancellation)
    ensures
        r == drain_cancellation(d, k),
{
    match d {
        Drain::Publish => Cancellation::Publish(k),
        Drain::PubRelPending => Cancellation::HeldPubRel(k),
        Drain::PubRel => Cancellation::PubRel(k),
        Drain::InApplication => Cancellation::Acknowledgement(k),
    }
}

/// Frees the packet identifier `p` in `pool`, if it is leased.
fn release_from(pool: &mut PkidPool, p: u16)
    requires
        old(pool).wf(),
    ensures
        final(pool).wf(),
        final(pool)@ == (PkidPoolView { leased: old(pool)@.leased.remove(p), ..old(pool)@ }),
{
    match PacketIdentifier::new(p) {
        Some(pkid) => {
            let _ = pool.release_pkid(pkid);
        },
        None => {
            proof {
                pool.lemma_valid();
            }
            assert(pool@.leased.remove(p) =~= pool@.leased);
        },
    }
}

impl Session {
    /// What every session keeps: that of its pool, and a valid state.
    pub closed spec fn wf(&self) -> bool {
        &&& self.pkid_pool.wf()
        &&& self@.valid()
    }

    /// A disconnected session with nothing in flight, whose packet identifiers range from 1 to
    /// `max_pkid`.
    pub fn new(max_pkid: PacketIdentifier) -> (r: Self)
        ensures
            r.wf(),
            r@ == (SessionView {
                pool: PkidPoolView { leased: Set::empty(), cursor: 1, max: max_pkid@ },
                publish: Seq::empty(),
                subscribe: Set::empty(),
                unsubscribe: Set::empty(),
                pubrel_pending: Seq::empty(),
                pubrel: Seq::empty(),
                incoming_pubrec: Set::empty(),
                incoming_pubcomp: Set::empty(),
                in_application: Seq::empty(),
                auth: false,
                connection_packets: Seq::empty(),
                packets_to_replay: Seq::empty(),
                connected: false,
                connection_epoch: 0,
                session_generation: 0,
                transient: false,
                ping_interval: None,
            }),
    {
        Session {
            pkid_pool: PkidPool::new(max_pkid),
            publish: map_new(),
            subscribe: HashSet::new(),
            unsubscribe: HashSet::new(),
            pubrel_pending: map_new(),
            pubrel: map_new(),
            incoming_pubrec: HashSet::new(),
            incoming_pubcomp: HashSet::new(),
            in_application: map_new(),
            auth: false,
            connection_packets: VecDeque::new(),
            packets_to_replay: VecDeque::new(),
            connected: false,
            connection_epoch: 0,
            session_generation: 0,
            transient: false,
            ping_interval: None,
        }
    }

    /// The next packet the session queued by itself: first those to send again after a
    /// reconnect, then those generated in answer to packets received.
    pub fn next_queued_packet(&mut self) -> (r: Option<QueuedPacket>)
        requires
            old(self).wf(),
        ensures
            final(self).wf(),
            old(self)@.packets_to_replay.len() > 0 ==> {
                &&& r == Some(old(self)@.packets_to_replay[0])
                &&& final(self)@ == (SessionView {
                    packets_to_replay: old(self)@.packets_to_replay.drop_first(),
                    ..old(self)@
                })
            },
            old(self)@.packets_to_replay.len() == 0 && old(self)@.connection_packets.len() > 0
                ==> {
                &&& r == Some(old(self)@.connection_packets[0])
                &&& final(self)@ == (SessionView {
                    connection_packets: old(self)@.connection_packets.drop_first(),
                    ..old(self)@
                })
            },
            old(self)@.packets_to_replay.len() == 0 && old(self)@.connection_packets.len() == 0
                ==> r is None && final(self)@ == old(self)@,
    {
        if let Some(packet) = self.packets_to_replay.pop_front() {
            Some(packet)
        } else {
            self.connection_packets.pop_front()
        }
    }

    /// The next acknowledgement ready to be sent in order: that of the inbound PUBLISH received
    /// first, once the application gave it; else the PUBREL of the successful PUBREC received
    /// first, once the application gave it.
    pub fn next_ready_acknowledgement(&mut self) -> (r: Option<ReadyAcknowledgement>)
        requires
            old(self).wf(),
        ensures
            final(self).wf(),
            (final(self)@, r) == after_ready_acknowledgement(old(self)@),
    {
        let ghost v = self@;
        if let Some((pkid, state)) = map_get_index(&self.in_application, 0) {
            if state >= INCOMING_QOS1_READY {
                let _ = map_shift_remove_index(&mut self.in_application, 0);
                proof {
                    index_map::lemma_drop_first(v.in_application);
                }
                return Some(ReadyAcknowledgement::Incoming(pkid));
            }
        }
        if let Some((pkid, state)) = map_get_index(&self.pubrel_pending, 0) {
            if state == PUBREL_READY {
                let _ = map_shift_remove_index(&mut self.pubrel_pending, 0);
                proof {
                    index_map::lemma_drop_first(v.pubrel_pending);
                }
                return Some(ReadyAcknowledgement::PubRel(pkid));
            }
        }
        None
    }

    /// Routes an acknowledgement request of the application: one the session does not owe, or
    /// from an earlier connection or session, is cancelled; a PUBACK or PUBREC is held until
    /// those for PUBLISHes received before it are sent, and a PUBREL until those for PUBRECs
    /// received before it are; a PUBCOMP is sent at once.
    pub fn route_acknowledgement(&mut self, req: AcknowledgementRequest) -> (r:
        AcknowledgementRoute)
        requires
            old(self).wf(),
        ensures
            final(self).wf(),
            (final(self)@, r) == after_route(old(self)@, req),
    {
        let ghost v = self@;
        let p = req.packet_identifier;
        match req.kind {
            AcknowledgementKind::PubAck => {
                if req.stamp != self.connection_epoch || map_get(&self.in_application, p) != Some(
                    INCOMING_QOS1,
                ) {
                    return AcknowledgementRoute::Cancel;
                }
                let _ = map_insert(&mut self.in_application, p, INCOMING_QOS1_READY);
                proof {
                    index_map::lemma_insert_key(v.in_application, p, INCOMING_QOS1_READY);
                }
                AcknowledgementRoute::Hold
            },
            AcknowledgementKind::PubRecAccept | AcknowledgementKind::PubRecReject => {
                if req.stamp != self.session_generation || map_get(&self.in_application, p)
                    != Some(INCOMING_QOS2) {
                    return AcknowledgementRoute::Cancel;
                }
                let _ = map_insert(&mut self.in_application, p, INCOMING_QOS2_READY);
                proof {
                    index_map::lemma_insert_key(v.in_application, p, INCOMING_QOS2_READY);
                }
                AcknowledgementRoute::Hold
            },
            AcknowledgementKind::PubRel => {
                if req.stamp != self.session_generation || map_get(&self.pubrel_pending, p)
                    != Some(PUBREL_AWAITING_APPLICATION) {
                    return AcknowledgementRoute::Cancel;
                }
                let _ = map_insert(&mut self.pubrel_pending, p, PUBREL_READY);
                proof {
                    index_map::lemma_insert_key(v.pubrel_pending, p, PUBREL_READY);
                }
                AcknowledgementRoute::Hold
            },
            AcknowledgementKind::PubComp => {
                if req.stamp != self.session_generation || !self.incoming_pubcomp.contains(&p) {
                    return AcknowledgementRoute::Cancel;
                }
                self.incoming_pubcomp.remove(&p);
                AcknowledgementRoute::Send
            },
        }
    }

    /// Tracks what the packet of an outgoing request awaits: a successful PUBREC its PUBREL, a
    /// PUBREL its PUBCOMP, a SUBSCRIBE or UNSUBSCRIBE its acknowledgement, a QoS 1 or QoS 2
    /// PUBLISH its PUBACK or PUBREC, an AUTH the server's AUTH.
    pub fn outgoing_request(&mut self, req: OutgoingRequest)
        requires
            old(self).wf(),
            old(self)@.connected,
        ensures
            final(self).wf(),
            final(self)@ == after_outgoing(old(self)@, req),
    {
        let ghost v = self@;
        match req {
            OutgoingRequest::PubRecAccept(p) => {
                self.incoming_pubrec.insert(p);
            },
            OutgoingRequest::PubRel(p) => {
                let _ = map_insert(&mut self.pubrel, p, PUBREL_FROM_APPLICATION);
                proof {
                    index_map::lemma_insert_key(v.pubrel, p, PUBREL_FROM_APPLICATION);
                }
            },
            OutgoingRequest::Subscribe(p) => {
                self.subscribe.insert(p);
            },
            OutgoingRequest::Unsubscribe(p) => {
                self.unsubscribe.insert(p);
            },
            OutgoingRequest::PublishQoS1(p) => {
                let _ = map_insert(&mut self.publish, p, PUBLISH_QOS1);
                proof {
                    index_map::lemma_insert_key(v.publish, p, PUBLISH_QOS1);
                }
            },
            OutgoingRequest::PublishQoS2(p) => {
                let _ = map_insert(&mut self.publish, p, PUBLISH_QOS2);
                proof {
                    index_map::lemma_insert_key(v.publish, p, PUBLISH_QOS2);
                }
            },
            OutgoingRequest::Reauth => {
                self.auth = true;
            },
            _ => {},
        }
    }

    /// Frees the packet identifier `p`, if it is leased.
    fn release(&mut self, p: u16)
        requires
            old(self).wf(),
        ensures
            final(self).wf(),
            final(self)@ == (SessionView { pool: released(old(self)@, p), ..old(self)@ }),
    {
        release_from(&mut self.pkid_pool, p);
    }

    /// Completes the operation a response of the server answers, and adjusts the state as
    /// `after_completion` says; a response to nothing in flight is an unexpected packet.
    pub fn complete_inflight(&mut self, op: CompletedOperation) -> (r: Result<
        Completion,
        ProtocolError,
    >)
        requires
            old(self).wf(),
        ensures
            final(self).wf(),
            (final(self)@, r) == after_completion(old(self)@, op),
    {
        let ghost v = self@;
        match op {
            CompletedOperation::Subscribe(p) => {
                self.release(p);
                if !self.subscribe.remove(&p) {
                    return Err(ProtocolError(ProtocolErrorRepr::UnexpectedPacket));
                }
                Ok(Completion::Subscribe(p))
            },
            CompletedOperation::Unsubscribe(p) => {
                self.release(p);
                if !self.unsubscribe.remove(&p) {
                    return Err(ProtocolError(ProtocolErrorRepr::UnexpectedPacket));
                }
                Ok(Completion::Unsubscribe(p))
            },
            CompletedOperation::PublishQoS1(p) => {
                if map_get(&self.publish, p) != Some(PUBLISH_QOS1) {
                    return Err(ProtocolError(ProtocolErrorRepr::UnexpectedPacket));
                }
                let _ = map_shift_remove(&mut self.publish, p);
                proof {
                    index_map::lemma_remove_key(v.publish, p);
                }
                self.release(p);
                Ok(Completion::PublishQoS1(p))
            },
            CompletedOperation::PublishQoS2 { packet_identifier: p, success } => {
                let current = map_get(&self.publish, p);
                if current == Some(PUBLISH_QOS1) {
                    return Err(ProtocolError(ProtocolErrorRepr::UnexpectedPacket));
                }
                if current.is_none() {
                    if map_get(&self.pubrel_pending, p).is_some() {
                        return Ok(Completion::Nothing);
                    }
                    match map_get(&self.pubrel, p) {
                        Some(origin) => {
                            self.connection_packets.push_back(
                                QueuedPacket::PubRel {
                                    packet_identifier: p,
                                    recovery: origin == PUBREL_RECOVERY,
                                },
                            );
                        },
                        None => {
                            let _ = map_insert(&mut self.pubrel, p, PUBREL_RECOVERY);
                            proof {
                                index_map::lemma_insert_key(v.pubrel, p, PUBREL_RECOVERY);
                            }
                            self.connection_packets.push_back(
                                QueuedPacket::PubRel { packet_identifier: p, recovery: true },
                            );
                        },
                    }
                    return Ok(Completion::Nothing);
                }
                let _ = map_shift_remove(&mut self.publish, p);
                proof {
                    index_map::lemma_remove_key(v.publish, p);
                }
                if success {
                    let _ = map_insert(&mut self.pubrel_pending, p, PUBREL_AWAITING_APPLICATION);
                    proof {
                        index_map::lemma_insert_key(
                            v.pubrel_pending,
                            p,
                            PUBREL_AWAITING_APPLICATION,
                        );
                    }
                    Ok(
                        Completion::PublishQoS2 {
                            packet_identifier: p,
                            pubrel_generation: Some(self.session_generation),
                        },
                    )
                } else {
                    self.release(p);
                    Ok(Completion::PublishQoS2 { packet_identifier: p, pubrel_generation: None })
                }
            },
            CompletedOperation::PubRec(p) => {
                if self.incoming_pubrec.remove(&p) {
                    self.incoming_pubcomp.insert(p);
                    Ok(
                        Completion::PubRec {
                            packet_identifier: p,
                            pubcomp_generation: self.session_generation,
                        },
                    )
                } else {
                    if !self.incoming_pubcomp.contains(&p) {
                        self.connection_packets.push_back(QueuedPacket::PubCompNotFound(p));
                    }
                    Ok(Completion::Nothing)
                }
            },
            CompletedOperation::PubRel(p) => {
                let origin = map_shift_remove(&mut self.pubrel, p);
                proof {
                    index_map::lemma_remove_key(v.pubrel, p);
                }
                match origin {
                    None => Err(ProtocolError(ProtocolErrorRepr::UnexpectedPacket)),
                    Some(o) => {
                        if o == PUBREL_FROM_APPLICATION {
                            self.release(p);
                            Ok(Completion::PubRel(p))
                        } else {
                            Ok(Completion::Nothing)
                        }
                    },
                }
            },
        }
    }

    /// Ends the session as the server no longer holds it: cancels what was in flight or owed,
    /// frees the identifiers of outgoing PUBLISHes and PUBRELs, and moves to the next
    /// generation.
    fn session_expired(&mut self, out: &mut Vec<Cancellation>)
        requires
            old(self).wf(),
            old(self)@.session_generation < u64::MAX,
        ensures
            final(self).wf(),
            final(self)@ == after_expiry(old(self)@),
            final(out)@.to_set() == old(out)@.to_set().union(expiry_cancellations(old(self)@)),
    {
        let ghost v = self@;
        let ghost out0 = out@;
        self.session_generation = self.session_generation + 1;
        drain_entries(&self.publish, &mut self.pkid_pool, out, Drain::Publish);
        map_clear(&mut self.publish);
        drain_set(&self.incoming_pubrec, &mut self.pkid_pool, out, SetDrain::IncomingPubRec);
        self.incoming_pubrec.clear();
        self.incoming_pubcomp.clear();
        drain_entries(&self.pubrel_pending, &mut self.pkid_pool, out, Drain::PubRelPending);
        map_clear(&mut self.pubrel_pending);
        drain_entries(&self.pubrel, &mut self.pkid_pool, out, Drain::PubRel);
        map_clear(&mut self.pubrel);
        drain_entries(&self.in_application, &mut self.pkid_pool, out, Drain::InApplication);
        map_clear(&mut self.in_application);
        self.connection_packets.clear();
        self.packets_to_replay.clear();
        proof {
            assert(drained_releases(Drain::InApplication, v.in_application) =~= Set::empty());
            assert(set_drained_releases(SetDrain::IncomingPubRec, v.incoming_pubrec) =~= Set::empty());
            assert(self@.pool.leased =~= v.pool.leased.difference(expiry_releases(v)));
            assert(out@.to_set() =~= out0.to_set().union(expiry_cancellations(v)));
            assert(self@ =~= after_expiry(v));
        }
    }

    /// Ends the connection: cancels the SUBSCRIBEs, UNSUBSCRIBEs and AUTH in flight and frees
    /// their identifiers, drops inbound QoS 1 PUBLISHes (cancelling acknowledgements held for
    /// them) and keeps QoS 2 ones, and queues the PUBRELs and PUBLISHes in flight to be sent
    /// again.
    fn disconnected(&mut self, out: &mut Vec<Cancellation>)
        requires
            old(self).wf(),
        ensures
            final(self).wf(),
            final(self)@ == after_disconnect(old(self)@),
            final(out)@.to_set() == old(out)@.to_set().union(disconnect_cancellations(old(self)@)),
    {
        let ghost v = self@;
        let ghost out0 = out@;
        self.connected = false;
        self.ping_interval = None;
        self.connection_packets.clear();
        drain_set(&self.subscribe, &mut self.pkid_pool, out, SetDrain::Subscribe);
        self.subscribe.clear();
        let ghost out_s = out@;
        assert(out_s.to_set() == out0.to_set().union(
            set_drained_cancellations(SetDrain::Subscribe, v.subscribe),
        ));
        drain_set(&self.unsubscribe, &mut self.pkid_pool, out, SetDrain::Unsubscribe);
        self.unsubscribe.clear();
        let ghost out_u = out@;
        assert(out_u.to_set() == out_s.to_set().union(
            set_drained_cancellations(SetDrain::Unsubscribe, v.unsubscribe),
        ));
        if self.auth {
            self.auth = false;
            out.push(Cancellation::Auth);
            proof {
                out_u.lemma_push_to_set_commute(Cancellation::Auth);
                assert(out@.to_set() =~= out_u.to_set().union(
                    Set::empty().insert(Cancellation::Auth),
                ));
            }
        } else {
            assert(out@.to_set() =~= out_u.to_set().union(Set::empty()));
        }
        let ghost out1 = out@;
        assert(out1.to_set() =~= out0.to_set().union(
            set_drained_cancellations(SetDrain::Subscribe, v.subscribe),
        ).union(set_drained_cancellations(SetDrain::Unsubscribe, v.unsubscribe)).union(
            if v.auth {
                Set::empty().insert(Cancellation::Auth)
            } else {
                Set::empty()
            },
        ));
        assert(self@.in_application == v.in_application);
        let retained = self.retain_session_publishes(out);
        assert(out@.to_set() =~= out0.to_set().union(disconnect_cancellations(v)));
        self.in_application = retained;
        self.packets_to_replay.clear();
        let ghost w = self@;
        let n = map_len(&self.pubrel);
        let mut i: usize = 0;
        while i < n
            invariant
                self.wf(),
                self@ == (SessionView { packets_to_replay: self@.packets_to_replay, ..w }),
                w.pubrel == v.pubrel,
                w.publish == v.publish,
                n == v.pubrel.len(),
                index_map_entries(self.pubrel) == v.pubrel,
                i <= n,
                self.packets_to_replay@ == v.pubrel.take(i as int).map_values(
                    |e: (u16, u8)|
                        QueuedPacket::PubRel { packet_identifier: e.0, recovery: e.1 == PUBREL_RECOVERY },
                ),
            decreases n - i,
        {
            let (k, c) = match map_get_index(&self.pubrel, i) {
                Some(e) => e,
                None => (0, 0),
            };
            self.packets_to_replay.push_back(
                QueuedPacket::PubRel { packet_identifier: k, recovery: c == PUBREL_RECOVERY },
            );
            proof {
                assert(v.pubrel.take(i + 1) =~= v.pubrel.take(i as int).push((k, c)));
            }
            i = i + 1;
        }
        let ghost pubrels = self.packets_to_replay@;
        let n = map_len(&self.publish);
        let mut i: usize = 0;
        while i < n
            invariant
                self.wf(),
                self@ == (SessionView { packets_to_replay: self@.packets_to_replay, ..w }),
                w.publish == v.publish,
                n == v.publish.len(),
                index_map_entries(self.publish) == v.publish,
                i <= n,
                self.packets_to_replay@ == pubrels + v.publish.take(i as int).map_values(
                    |e: (u16, u8)| QueuedPacket::Publish(e.0),
                ),
            decreases n - i,
        {
            let (k, c) = match map_get_index(&self.publish, i) {
                Some(e) => e,
                None => (0, 0),
            };
            self.packets_to_replay.push_back(QueuedPacket::Publish(k));
            proof {
                assert(v.publish.take(i + 1) =~= v.publish.take(i as int).push((k, c)));
                assert(self.packets_to_replay@ =~= pubrels + v.publish.take(i + 1).map_values(
                    |e: (u16, u8)| QueuedPacket::Publish(e.0),
                ));
            }
            i = i + 1;
        }
        proof {
            assert(v.pubrel.take(v.pubrel.len() as int) =~= v.pubrel);
            assert(v.publish.take(v.publish.len() as int) =~= v.publish);
            assert(self@.packets_to_replay =~= replay_of(v));
            assert(self@.pool.leased =~= v.pool.leased.difference(v.subscribe).difference(
                v.unsubscribe,
            ));
            assert(out@.to_set() =~= out0.to_set().union(disconnect_cancellations(v)));
            assert(self@ =~= after_disconnect(v));
        }
    }

    /// The inbound PUBLISHes with the application that outlive the connection, in order; the
    /// held acknowledgements of the others are added to `out`.
    fn retain_session_publishes(&self, out: &mut Vec<Cancellation>) -> (r: IndexMap<u16, u8>)
        requires
            self.wf(),
        ensures
            index_map_entries(r) == self@.in_application.filter(
                |e: (u16, u8)| outlives_connection(e),
            ),
            keys_unique(index_map_entries(r)),
            values_between(index_map_entries(r), INCOMING_QOS1, INCOMING_QOS2_READY),
            final(out)@.to_set() == old(out)@.to_set().union(held_qos1_acknowledgements(self@)),
    {
        let ghost s = self@.in_application;
        let ghost out0 = out@;
        let ghost keep = |e: (u16, u8)| outlives_connection(e);
        let mut retained = map_new();
        let n = map_len(&self.in_application);
        let mut i: usize = 0;
        while i < n
            invariant
                n == s.len(),
                s == self@.in_application,
                keep == (|e: (u16, u8)| outlives_connection(e)),
                keys_unique(s),
                values_between(s, INCOMING_QOS1, INCOMING_QOS2_READY),
                i <= n,
                index_map_entries(retained) == s.take(i as int).filter(keep),
                keys_unique(index_map_entries(retained)),
                values_between(index_map_entries(retained), INCOMING_QOS1, INCOMING_QOS2_READY),
                forall|k: u16| has_key(index_map_entries(retained), k) ==> has_key(s.take(i as int), k),
                out@.to_set() == out0.to_set().union(
                    held_qos1_acknowledgements(SessionView { in_application: s.take(i as int), ..self@ }),
                ),
            decreases n - i,
        {
            let (k, c) = match map_get_index(&self.in_application, i) {
                Some(e) => e,
                None => (0, 0),
            };
            let ghost t = s.take(i as int);
            let ghost t1 = s.take(i + 1);
            let ghost r0 = index_map_entries(retained);
            let ghost before = out@;
            proof {
                assert(t1 =~= t.push((k, c)));
                assert(t1.drop_last() =~= t);
                reveal(Seq::filter);
                assert(!has_key(t, k)) by {
                    if has_key(t, k) {
                        let j = choose|j: int| 0 <= j < t.len() && t[j].0 == k;
                        assert(s[j].0 == s[i as int].0);
                    }
                }
            }
            if c == INCOMING_QOS2 || c == INCOMING_QOS2_READY {
                let _ = map_insert(&mut retained, k, c);
                proof {
                    index_map::lemma_insert_key(r0, k, c);
                    reveal(Seq::filter);
                    assert(t1.drop_last() == t);
                    assert(t1.last() == (k, c));
                    assert(keep((k, c)));
                    assert(t1.filter(keep) == t1.drop_last().filter(keep).push(t1.last()));
                    assert(t1.filter(keep) == t.filter(keep).push((k, c)));
                    assert forall|x: u16| has_key(index_map_entries(retained), x) implies has_key(
                        t1,
                        x,
                    ) by {
                        if x != k {
                            let j = choose|j: int|
                                0 <= j < index_map_entries(retained).len() && index_map_entries(
                                    retained,
                                )[j].0 == x;
                            assert(index_map_entries(retained)[j] == r0[j]);
                            assert(has_key(r0, x));
                            let m = choose|m: int| 0 <= m < t.len() && t[m].0 == x;
                            assert(t1[m] == t[m]);
                        } else {
                            assert(t1[i as int].0 == k);
                        }
                    }
                }
            } else {
                if c == INCOMING_QOS1_READY {
                    out.push(Cancellation::Acknowledgement(k));
                    proof {
                        before.lemma_push_to_set_commute(Cancellation::Acknowledgement(k));
                    }
                }
                proof {
                    reveal(Seq::filter);
                    assert(t1.drop_last() == t);
                    assert(t1.last() == (k, c));
                    assert(!keep((k, c)));
                    assert(t1.filter(keep) == t1.drop_last().filter(keep));
                    assert(t1.filter(keep) == t.filter(keep));
                    assert forall|x: u16| has_key(index_map_entries(retained), x) implies has_key(
                        t1,
                        x,
                    ) by {
                        let m = choose|m: int| 0 <= m < t.len() && t[m].0 == x;
                        assert(t1[m] == t[m]);
                    }
                }
            }
            proof {
                let a = held_qos1_acknowledgements(SessionView { in_application: t, ..self@ });
                let a1 = held_qos1_acknowledgements(SessionView { in_application: t1, ..self@ });
                assert forall|x: Cancellation| a1.contains(x) == (a.contains(x) || (c
                    == INCOMING_QOS1_READY && x == Cancellation::Acknowledgement(k))) by {
                    if a.contains(x) {
                        let j = choose|j: int|
                            0 <= j < t.len() && t[j].1 == INCOMING_QOS1_READY && x
                                == Cancellation::Acknowledgement(t[j].0);
                        assert(t1[j] == t[j]);
                    }
                    if a1.contains(x) {
                        let j = choose|j: int|
                            0 <= j < t1.len() && t1[j].1 == INCOMING_QOS1_READY && x
                                == Cancellation::Acknowledgement(t1[j].0);
                        if j < i {
                            assert(t[j] == t1[j]);
                        }
                    }
                    if c == INCOMING_QOS1_READY && x == Cancellation::Acknowledgement(k) {
                        assert(t1[i as int] == (k, c));
                    }
                }
                assert(out@.to_set() =~= out0.to_set().union(a1));
            }
            i = i + 1;
        }
        proof {
            assert(s.take(n as int) =~= s);
            assert(SessionView { in_application: s, ..self@ } =~= self@);
        }
        retained
    }

    /// Ends the connection at the application's request with `disconnect`; a session expiry
    /// interval of zero in it makes the session transient, and a transient session ends too.
    /// Returns what is cancelled.
    pub fn client_disconnect(&mut self, disconnect: &Disconnect) -> (r: Vec<Cancellation>)
        requires
            old(self).wf(),
            old(self)@.transient || expires_at_once(
                disconnect.other_properties.session_expiry_interval,
            ) ==> old(self)@.session_generation < u64::MAX,
        ensures
            final(self).wf(),
            final(self)@ == after_disconnect_event(
                old(self)@,
                expires_at_once(disconnect.other_properties.session_expiry_interval),
            ),
            r@.to_set() == disconnect_event_cancellations(
                old(self)@,
                expires_at_once(disconnect.other_properties.session_expiry_interval),
            ),
    {
        let at_once = match disconnect.other_properties.session_expiry_interval {
            Some(SessionExpiryInterval::Duration(0)) => true,
            _ => false,
        };
        self.end_connection(at_once)
    }

    /// Ends the connection as the server sent DISCONNECT; the server cannot change the
    /// session expiry interval, and a transient session ends too. Returns what is cancelled.
    pub fn server_disconnect(&mut self) -> (r: Vec<Cancellation>)
        requires
            old(self).wf(),
            old(self)@.transient ==> old(self)@.session_generation < u64::MAX,
        ensures
            final(self).wf(),
            final(self)@ == after_disconnect_event(old(self)@, false),
            r@.to_set() == disconnect_event_cancellations(old(self)@, false),
    {
        self.end_connection(false)
    }

    /// Ends the connection as the transport failed; a transient session ends too. Returns what
    /// is cancelled.
    pub fn transport_disconnect(&mut self) -> (r: Vec<Cancellation>)
        requires
            old(self).wf(),
            old(self)@.transient ==> old(self)@.session_generation < u64::MAX,
        ensures
            final(self).wf(),
            final(self)@ == after_disconnect_event(old(self)@, false),
            r@.to_set() == disconnect_event_cancellations(old(self)@, false),
    {
        self.end_connection(false)
    }

    /// Ends the connection, makes the session transient if `make_transient`, and ends a
    /// transient session.
    fn end_connection(&mut self, make_transient: bool) -> (r: Vec<Cancellation>)
        requires
            old(self).wf(),
            old(self)@.transient || make_transient ==> old(self)@.session_generation < u64::MAX,
        ensures
            final(self).wf(),
            final(self)@ == after_disconnect_event(old(self)@, make_transient),
            r@.to_set() == disconnect_event_cancellations(old(self)@, make_transient),
    {
        let ghost v = self@;
        let mut out: Vec<Cancellation> = Vec::new();
        self.disconnected(&mut out);
        if make_transient {
            self.transient = true;
        }
        let ghost out1 = out@;
        if self.transient {
            self.session_expired(&mut out);
        }
        proof {
            assert(Seq::<Cancellation>::empty().to_set() =~= Set::empty());
            assert(out1.to_set() =~= disconnect_cancellations(v));
            assert(out@.to_set() =~= disconnect_event_cancellations(v, make_transient));
        }
        out
    }

    /// Takes in a CONNACK, as `after_connack` says, and returns what it cancels.
    pub fn incoming_connack(&mut self, connack: &ConnAck, client_keep_alive: KeepAlive) -> (r: Vec<
        Cancellation,
    >)
        requires
            old(self).wf(),
            connack.reason_code is Success ==> old(self)@.connection_epoch < u64::MAX,
            connack.reason_code matches ConnectReasonCode::Success { session_present }
                && !session_present ==> old(self)@.session_generation < u64::MAX,
        ensures
            final(self).wf(),
            final(self)@ == after_connack(old(self)@, *connack, client_keep_alive),
            r@.to_set() == connack_cancellations(old(self)@, *connack),
    {
        let ghost v = self@;
        let mut out: Vec<Cancellation> = Vec::new();
        proof {
            assert(out@.to_set() =~= Set::empty());
        }
        if let ConnectReasonCode::Success { session_present } = connack.reason_code {
            if !session_present {
                self.session_expired(&mut out);
                assert(out@.to_set() =~= expiry_cancellations(v));
            }
            self.connection_epoch = self.connection_epoch + 1;
            if let Some(SessionExpiryInterval::Duration(0)) = connack.other_properties.session_expiry_interval {
                self.transient = true;
            }
            let keep_alive = match connack.other_properties.server_keep_alive {
                Some(k) => k,
                None => client_keep_alive,
            };
            self.ping_interval = match keep_alive {
                KeepAlive::Duration(d) => Some(d.get()),
                KeepAlive::Infinite => None,
            };
            self.connected = true;
        }
        out
    }

    /// Takes in an inbound PUBLISH with the QoS and packet identifier `qos`, as
    /// `after_incoming_publish` says, and returns how it reaches the application, if at all.
    /// A QoS 1 PUBLISH must not reuse the identifier of one the application still holds.
    pub fn incoming_publish(&mut self, qos: PacketIdentifierDupQoS) -> (r: Option<IncomingDelivery>)
        requires
            old(self).wf(),
            qos matches PacketIdentifierDupQoS::AtLeastOnce(p, _) ==> !has_key(
                old(self)@.in_application,
                p@,
            ),
        ensures
            final(self).wf(),
            (final(self)@, r) == after_incoming_publish(old(self)@, qos),
    {
        let ghost v = self@;
        match qos {
            PacketIdentifierDupQoS::AtMostOnce => Some(IncomingDelivery::QoS0),
            PacketIdentifierDupQoS::AtLeastOnce(pkid, _) => {
                let p = pkid.get();
                let _ = map_insert(&mut self.in_application, p, INCOMING_QOS1);
                proof {
                    index_map::lemma_insert_key(v.in_application, p, INCOMING_QOS1);
                }
                Some(
                    IncomingDelivery::QoS1 {
                        packet_identifier: p,
                        connection_epoch: self.connection_epoch,
                    },
                )
            },
            PacketIdentifierDupQoS::ExactlyOnce(pkid, _) => {
                let p = pkid.get();
                if self.incoming_pubrec.contains(&p) {
                    self.connection_packets.push_back(QueuedPacket::PubRec(p));
                    None
                } else if map_get(&self.in_application, p).is_some()
                    || self.incoming_pubcomp.contains(&p) {
                    None
                } else {
                    let _ = map_insert(&mut self.in_application, p, INCOMING_QOS2);
                    proof {
                        index_map::lemma_insert_key(v.in_application, p, INCOMING_QOS2);
                    }
                    Some(
                        IncomingDelivery::QoS2 {
                            packet_identifier: p,
                            session_generation: self.session_generation,
                        },
                    )
                }
            },
        }
    }

    /// Whether the application holds the inbound PUBLISH under `p`, its acknowledgement not
    /// yet sent.
    pub fn holds_incoming(&self, p: u16) -> (r: bool)
        requires
            self.wf(),
        ensures
            r == has_key(self@.in_application, p),
    {
        map_get(&self.in_application, p).is_some()
    }

    /// Takes in an inbound AUTH, as `after_incoming_auth` says. One that continues a
    /// re-authentication in flight must name its method.
    pub fn incoming_auth(&mut self, auth: &Auth) -> (r: Result<AuthOutcome, ProtocolError>)
        requires
            old(self).wf(),
            auth.reason_code is ContinueAuthentication && old(self)@.auth ==> auth.authentication
                is Some,
        ensures
            final(self).wf(),
            (final(self)@, r) == after_incoming_auth(old(self)@, auth.reason_code),
    {
        match auth.reason_code {
            AuthenticateReasonCode::Success => {
                if !self.auth {
                    return Err(ProtocolError(ProtocolErrorRepr::UnexpectedPacket));
                }
                self.auth = false;
                Ok(AuthOutcome::Success)
            },
            AuthenticateReasonCode::ContinueAuthentication => {
                if !self.auth {
                    return Err(ProtocolError(ProtocolErrorRepr::UnexpectedPacket));
                }
                self.auth = false;
                Ok(AuthOutcome::Continue)
            },
            AuthenticateReasonCode::ReAuthenticate => Err(
                ProtocolError(ProtocolErrorRepr::UnexpectedPacket),
            ),
        }
    }

    /// Leases the next free packet identifier for an outgoing SUBSCRIBE, UNSUBSCRIBE or QoS 1
    /// or QoS 2 PUBLISH, as the pool does; `None` while every identifier is in use.
    pub fn lease_packet_identifier(&mut self) -> (r: Option<PacketIdentifier>)
        requires
            old(self).wf(),
        ensures
            final(self).wf(),
            old(self)@.pool.leased.len() == old(self)@.pool.max ==> r is None && final(self)@
                == old(self)@,
            old(self)@.pool.leased.len() < old(self)@.pool.max ==> (r matches Some(p) && {
                &&& old(self)@.pool.is_next_free(p@)
                &&& final(self)@ == (SessionView {
                    pool: PkidPoolView {
                        leased: old(self)@.pool.leased.insert(p@),
                        cursor: cyclic(p@ as int, 1, old(self)@.pool.max as int) as u16,
                        ..old(self)@.pool
                    },
                    ..old(self)@
                })
            }),
    {
        self.pkid_pool.lease_next_pkid()
    }

    /// Chooses what to send next among the requests waiting, in the order of priority of a
    /// client: a DISCONNECT, then an acknowledgement (which can free packet identifiers), then a
    /// re-authentication, then a SUBSCRIBE, a QoS 0 PUBLISH, a QoS 1 or QoS 2 PUBLISH, and
    /// last a PINGREQ that is due. A SUBSCRIBE or a QoS 1 or QoS 2 PUBLISH is taken only with
    /// the packet identifier leased for it, and waits while every identifier is in use.
    pub fn next_request(&mut self, pending: PendingRequests) -> (r: NextRequest)
        requires
            old(self).wf(),
        ensures
            final(self).wf(),
            ({
                let v = old(self)@;
                let free = v.pool.leased.len() < v.pool.max;
                if pending.disconnect {
                    r == NextRequest::Disconnect && final(self)@ == v
                } else if pending.acknowledgement {
                    r == NextRequest::Acknowledgement && final(self)@ == v
                } else if pending.reauth {
                    r == NextRequest::Reauth && final(self)@ == v
                } else if pending.subscribe && free {
                    r matches NextRequest::Subscribe(p) && v.pool.is_next_free(p@) && final(self)@
                        == after_lease(v, p@)
                } else if pending.publish_qos0 {
                    r == NextRequest::PublishQoS0 && final(self)@ == v
                } else if pending.publish_qos12 && free {
                    r matches NextRequest::PublishQoS12(p) && v.pool.is_next_free(p@) && final(self)@
                        == after_lease(v, p@)
                } else if pending.ping_due {
                    r == NextRequest::PingReq && final(self)@ == v
                } else {
                    r == NextRequest::Wait && final(self)@ == v
                }
            }),
    {
        proof {
            self.pkid_pool.lemma_valid();
            crate::client::pkid::lemma_pool_full(self@.pool);
        }
        if pending.disconnect {
            return NextRequest::Disconnect;
        }
        if pending.acknowledgement {
            return NextRequest::Acknowledgement;
        }
        if pending.reauth {
            return NextRequest::Reauth;
        }
        if pending.subscribe {
            if let Some(p) = self.lease_packet_identifier() {
                return NextRequest::Subscribe(p);
            }
        }
        if pending.publish_qos0 {
            return NextRequest::PublishQoS0;
        }
        if pending.publish_qos12 {
            if let Some(p) = self.lease_packet_identifier() {
                return NextRequest::PublishQoS12(p);
            }
        }
        if pending.ping_due {
            return NextRequest::PingReq;
        }
        NextRequest::Wait
    }

    /// The keep-alive interval, in seconds, after which a PINGREQ is due, if any.
    pub fn ping_interval(&self) -> (r: Option<u16>)
        ensures
            r == self@.ping_interval,
    {
        self.ping_interval
    }

    /// Whether the session ends with its connection.
    pub fn is_transient(&self) -> (r: bool)
        ensures
            r == self@.transient,
    {
        self.transient
    }

    /// The number of times the session expired.
    pub fn session_generation(&self) -> (r: u64)
        ensures
            r == self@.session_generation,
    {
        self.session_generation
    }

    /// The number of connections established.
    pub fn connection_epoch(&self) -> (r: u64)
        ensures
            r == self@.connection_epoch,
    {
        self.connection_epoch
    }

    /// Whether an AUTH of a re-authentication is in flight.
    pub fn awaits_auth(&self) -> (r: bool)
        ensures
            r == self@.auth,
    {
        self.auth
    }

    /// Whether a connection is established.
    pub fn is_connected(&self) -> (r: bool)
        ensures
            r == self@.connected,
    {
        self.connected
    }
}

} // verus!
