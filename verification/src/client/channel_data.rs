//! Requests that the application hands to the client.
use vstd::prelude::*;

use crate::mqtt_proto::disconnect::Disconnect;

verus! {

/// Request to send a DISCONNECT packet.
pub struct DisconnectRequest(pub Disconnect);

} // verus!
