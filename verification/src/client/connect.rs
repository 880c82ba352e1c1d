//! What a connection attempt leads to, once the server answered the CONNECT (or an AUTH of
//! enhanced authentication), failed to, or took too long.
use vstd::prelude::*;

use crate::client::session::{after_connack, connack_cancellations, Cancellation, Session};
use crate::error::{ConnectError, ProtocolError, ProtocolErrorRepr};
use crate::mqtt_proto::auth::Auth;
use crate::mqtt_proto::connack::{ConnAck, ConnectReasonCode};
use crate::mqtt_proto::packet::Packet;
use crate::mqtt_proto::property::KeepAlive;

verus! {

/// The outcome of a connection attempt.
pub enum ConnectOutcome {
    /// The server accepted the connection with this CONNACK.
    Connected(ConnAck),
    /// The server continues enhanced authentication with this AUTH.
    Continue(Auth),
    /// The attempt failed.
    Failed(ConnectError),
}

/// Whether the outcome of a response is the one `connect_outcome` gives: a CONNACK that
/// accepts connects and one that refuses is a rejection; an AUTH continues an enhanced
/// authentication; any other packet is unexpected; a read error and a timeout (`None`) fail
/// as they are.
pub open spec fn outcome_of(
    received: Option<Result<Packet, ConnectError>>,
    enhanced: bool,
    r: ConnectOutcome,
) -> bool {
    match received {
        None => r matches ConnectOutcome::Failed(ConnectError::ResponseTimeout),
        Some(Err(e)) => r == ConnectOutcome::Failed(e),
        Some(Ok(Packet::ConnAck(c))) => if c.reason_code is Success {
            r == ConnectOutcome::Connected(c)
        } else {
            r == ConnectOutcome::Failed(ConnectError::Rejected(c))
        },
        Some(Ok(Packet::Auth(a))) => if enhanced {
            r == ConnectOutcome::Continue(a)
        } else {
            r == ConnectOutcome::Failed(
                ConnectError::Protocol(ProtocolError(ProtocolErrorRepr::UnexpectedPacket)),
            )
        },
        Some(Ok(_)) => r == ConnectOutcome::Failed(
            ConnectError::Protocol(ProtocolError(ProtocolErrorRepr::UnexpectedPacket)),
        ),
    }
}

/// Decides a connection attempt from what came back for its CONNECT (or its AUTH, if
/// `enhanced`): `None` if nothing came before the response timeout. A CONNACK is taken in by
/// the session with the keep alive the client asked for; what that cancels is returned with
/// the outcome.
pub fn connect_outcome(
    session: &mut Session,
    received: Option<Result<Packet, ConnectError>>,
    client_keep_alive: KeepAlive,
    enhanced: bool,
) -> (r: (ConnectOutcome, Vec<Cancellation>))
    requires
        old(session).wf(),
        received matches Some(Ok(Packet::ConnAck(c))) ==> {
            &&& c.reason_code is Success ==> old(session)@.connection_epoch < u64::MAX
            &&& c.reason_code == (ConnectReasonCode::Success { session_present: false })
                ==> old(session)@.session_generation < u64::MAX
        },
    ensures
        final(session).wf(),
        outcome_of(received, enhanced, r.0),
        match received {
            Some(Ok(Packet::ConnAck(c))) => {
                &&& final(session)@ == after_connack(old(session)@, c, client_keep_alive)
                &&& r.1@.to_set() == connack_cancellations(old(session)@, c)
            },
            _ => final(session)@ == old(session)@ && r.1@.len() == 0,
        },
{
    match received {
        None => (ConnectOutcome::Failed(ConnectError::ResponseTimeout), Vec::new()),
        Some(Err(e)) => (ConnectOutcome::Failed(e), Vec::new()),
        Some(Ok(Packet::ConnAck(connack))) => {
            let cancelled = session.incoming_connack(&connack, client_keep_alive);
            if connack.is_success() {
                (ConnectOutcome::Connected(connack), cancelled)
            } else {
                (ConnectOutcome::Failed(ConnectError::Rejected(connack)), cancelled)
            }
        },
        Some(Ok(Packet::Auth(auth))) => {
            if enhanced {
                (ConnectOutcome::Continue(auth), Vec::new())
            } else {
                (
                    ConnectOutcome::Failed(
                        ConnectError::Protocol(ProtocolError(ProtocolErrorRepr::UnexpectedPacket)),
                    ),
                    Vec::new(),
                )
            }
        },
        Some(Ok(_)) => (
            ConnectOutcome::Failed(
                ConnectError::Protocol(ProtocolError(ProtocolErrorRepr::UnexpectedPacket)),
            ),
            Vec::new(),
        ),
    }
}

} // verus!
