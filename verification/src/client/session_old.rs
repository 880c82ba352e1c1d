//! Session state for an MQTT client: the packet identifiers of its operations in flight.
use vstd::prelude::*;

use crate::client::pkid::{PkidPool, PkidPoolView};
use crate::mqtt_proto::connack::ConnAck;
use crate::mqtt_proto::puback::PubAck;
use crate::mqtt_proto::suback::SubAck;
use crate::mqtt_proto::PacketIdentifier;

verus! {

/// Options of a session.
pub struct SessionOptions {
    /// The largest number of operations in flight; never 0.
    pub max_inflight: u16,
}

/// The state of a session: the pool its packet identifiers are leased from.
pub struct SessionState {
    pkid_pool: PkidPool,
}

impl View for SessionState {
    type V = PkidPoolView;

    closed spec fn view(&self) -> PkidPoolView {
        self.pkid_pool@
    }
}

/// A response that completes an operation the client initiated.
pub enum CompletedOperation {
    Connect(ConnAck),
    PublishQoS1(PubAck),
    Subscribe(SubAck),
    /// An UNSUBACK, given by its packet identifier.
    Unsubscribe(PacketIdentifier),
}

impl SessionState {
    /// What every session keeps: that of its pool.
    pub closed spec fn wf(&self) -> bool {
        self.pkid_pool.wf()
    }

    /// A session whose packet identifiers range from 1 to `options.max_inflight`, none leased.
    pub fn new(options: SessionOptions) -> (r: Self)
        requires
            options.max_inflight != 0,
        ensures
            r.wf(),
            r@.leased == Set::<u16>::empty(),
            r@.cursor == 1,
            r@.max == options.max_inflight,
    {
        let max_pkid = PacketIdentifier::new_unchecked(options.max_inflight);
        SessionState { pkid_pool: PkidPool::new(max_pkid) }
    }

    /// Completes the operation that `operation` answers: an acknowledgement of a PUBLISH or a
    /// SUBSCRIBE frees its packet identifier; a CONNACK changes nothing.
    pub fn complete_inflight(&mut self, operation: CompletedOperation)
        requires
            old(self).wf(),
        ensures
            final(self).wf(),
            final(self)@ == (match operation {
                CompletedOperation::Connect(_) => old(self)@,
                CompletedOperation::PublishQoS1(puback) => PkidPoolView {
                    leased: old(self)@.leased.remove(puback.packet_identifier@),
                    ..old(self)@
                },
                CompletedOperation::Subscribe(suback) => PkidPoolView {
                    leased: old(self)@.leased.remove(suback.packet_identifier@),
                    ..old(self)@
                },
                CompletedOperation::Unsubscribe(packet_identifier) => PkidPoolView {
                    leased: old(self)@.leased.remove(packet_identifier@),
                    ..old(self)@
                },
            }),
    {
        match operation {
            CompletedOperation::Connect(_connack) => {},
            CompletedOperation::PublishQoS1(puback) => {
                self.pkid_pool.release_pkid(puback.packet_identifier);
            },
            CompletedOperation::Subscribe(suback) => {
                self.pkid_pool.release_pkid(suback.packet_identifier);
            },
            CompletedOperation::Unsubscribe(packet_identifier) => {
                self.pkid_pool.release_pkid(packet_identifier);
            },
        }
    }
}

} // verus!
