//! Ref: 3.12 PINGREQ – PING request
use vstd::prelude::*;

use crate::buffer_pool::{BytesAccumulator, Shared};
use crate::mqtt_proto::{DecodeError, EncodeError, ProtocolVersion};

verus! {

/// Ref: 3.12 PINGREQ – PING request
#[derive(Clone, Copy, Debug, PartialEq, Eq, Structural)]
pub struct PingReq;

impl PingReq {
    pub const PACKET_TYPE: u8 = 0xC0;

    /// A PINGREQ has no body: decoding takes nothing from `src`.
    pub fn decode(_flags: u8, _src: &mut Shared, _version: ProtocolVersion) -> (r: Result<
        PingReq,
        DecodeError,
    >)
        ensures
            r is Ok,
            final(_src)@ == old(_src)@,
    {
        Ok(PingReq)
    }

    /// A PINGREQ has no body: encoding appends nothing.
    pub fn encode<B: BytesAccumulator>(&self, _dst: &mut B, _version: ProtocolVersion) -> (r: Result<
        (),
        EncodeError,
    >)
        ensures
            r is Ok,
            *final(_dst) == *old(_dst),
    {
        Ok(())
    }
}

} // verus!
