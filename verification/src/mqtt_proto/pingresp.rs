//! Ref: 3.13 PINGRESP – PING response
use vstd::prelude::*;

use crate::buffer_pool::{BytesAccumulator, Shared};
use crate::mqtt_proto::{DecodeError, EncodeError, ProtocolVersion};

verus! {

/// Ref: 3.13 PINGRESP – PING response
#[derive(Clone, Copy, Debug, PartialEq, Eq, Structural)]
pub struct PingResp;

impl PingResp {
    pub const PACKET_TYPE: u8 = 0xD0;

    /// A PINGRESP has no body: decoding takes nothing from `src`.
    pub fn decode(_flags: u8, _src: &mut Shared, _version: ProtocolVersion) -> (r: Result<
        PingResp,
        DecodeError,
    >)
        ensures
            r is Ok,
            final(_src)@ == old(_src)@,
    {
        Ok(PingResp)
    }

    /// A PINGRESP has no body: encoding appends nothing.
    pub fn encode<B: BytesAccumulator>(&self, _dst: &mut B, _version: ProtocolVersion) -> (r: Result<
        (),
        EncodeError,
    >)
        ensures
            r is Ok,
            *final(_dst) == *old(_dst),
    {
        Ok(())
    }
}

} // verus!
