//! Errors of tracking operations in flight.
use vstd::prelude::*;

use crate::mqtt_proto::PacketIdentifier;

verus! {

/// The packet identifier held is already in flight.
#[derive(Debug)]
pub struct PkidError(pub PacketIdentifier);

/// An operation could not be put in flight; it is handed back, with the reason.
#[derive(Debug)]
pub struct InsertionError<P, C> {
    pub packet: P,
    pub completion: C,
    pub reason: String,
}

} // verus!
