//! Holding encoded MQTT packets until they are written to a stream.
use vstd::prelude::*;

use crate::buffer_pool::{BytesAccumulator, SingleAccumulator};
use crate::mqtt_proto::packet::{packet_encodable_for, packet_fits, spec_encode_packet, Packet};
use crate::mqtt_proto::{EncodeError, ProtocolVersion};

verus! {

/// The encoded bytes of the packets written, not yet handed to the stream.
pub struct Writer {
    buf: SingleAccumulator,
}

impl Writer {
    /// The bytes waiting to be written to the stream.
    pub closed spec fn pending(&self) -> Seq<u8> {
        self.buf.contents()
    }

    /// What every writer keeps.
    pub closed spec fn wf(&self) -> bool {
        self.buf.wf()
    }

    /// A writer with nothing pending.
    pub fn new() -> (r: Self)
        ensures
            r.wf(),
            r.pending() == Seq::<u8>::empty(),
    {
        let buf = SingleAccumulator::new();
        proof {
            buf.lemma_spare();
        }
        Writer { buf }
    }

    /// Encodes `packet` and appends its bytes to those pending. The bytes are not written to
    /// the stream until the caller takes them.
    pub fn write(&mut self, packet: &Packet, version: ProtocolVersion) -> (r: Result<(), EncodeError>)
        requires
            old(self).wf(),
            packet_fits(packet@, version),
            packet_encodable_for(packet@, version),
        ensures
            final(self).wf(),
            match spec_encode_packet(packet@, version) {
                Ok(bytes) => if bytes.len() <= usize::MAX - old(self).pending().len() {
                    r is Ok && final(self).pending() == old(self).pending() + bytes
                } else {
                    r == Err::<(), EncodeError>(EncodeError::InsufficientBuffer) && final(self).pending()
                        == old(self).pending()
                },
                Err(e) => r == Err::<(), EncodeError>(e) && final(self).pending() == old(
                    self,
                ).pending(),
            },
    {
        proof {
            self.buf.lemma_spare();
        }
        packet.encode(&mut self.buf, version)
    }

    /// The bytes waiting to be written to the stream.
    pub fn pending_bytes(&self) -> (r: &[u8])
        ensures
            r@ == self.pending(),
    {
        self.buf.as_slice()
    }

    /// Removes the first `n` pending bytes, once the stream has taken them.
    pub fn consume(&mut self, n: usize)
        requires
            old(self).wf(),
            n <= old(self).pending().len(),
        ensures
            final(self).wf(),
            final(self).pending() == old(self).pending().skip(n as int),
    {
        self.buf.drain(n);
        proof {
            self.buf.lemma_spare();
        }
    }
}

} // verus!
