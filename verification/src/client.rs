//! The MQTT client: its options, and the session state it keeps.
use std::time::Duration;
use vstd::prelude::*;

use crate::error::ProtocolError;
use crate::mqtt_proto::disconnect::Disconnect;
use crate::mqtt_proto::property::KeepAlive;
use crate::mqtt_proto::PacketIdentifier;

pub mod channel_data;
pub mod connect;
pub mod connection;
pub mod inflight;
pub mod pkid;
pub mod session;
pub mod session_old;

verus! {

/// Options for configuring the MQTT client.
pub struct ClientOptions {
    /// MQTT Client Identifier. If None, the MQTT server will assign one.
    pub client_id: Option<String>,
    /// Maximum packet identifier.
    pub max_packet_identifier: PacketIdentifier,
    /// Maximum size of the outgoing queue for QoS 0 PUBLISH packets.
    pub publish_qos0_queue_size: usize,
    /// Maximum size of the outgoing queue for QoS 1 and 2 PUBLISH packets.
    pub publish_qos1_qos2_queue_size: usize,
}

impl Default for ClientOptions {
    /// No client identifier, every packet identifier, and queues of 100 PUBLISH packets.
    fn default() -> (r: Self)
        ensures
            r.client_id is None,
            r.max_packet_identifier@ == 65535,
            r.publish_qos0_queue_size == 100,
            r.publish_qos1_qos2_queue_size == 100,
    {
        ClientOptions {
            client_id: None,
            max_packet_identifier: PacketIdentifier::max_value(),
            publish_qos0_queue_size: 100,
            publish_qos1_qos2_queue_size: 100,
        }
    }
}

/// Configures whether and how a connection uses MQTT keep alive.
#[derive(Clone, Copy, Debug, Eq, PartialEq)]
pub enum KeepAliveConfig {
    /// Requests no client keep alive. The server can still provide a keep-alive interval in
    /// CONNACK.
    Infinite,
    /// Requests a keep-alive interval. The server can replace this interval in CONNACK.
    Duration {
        /// Keep-alive interval in seconds, as encoded in the MQTT CONNECT packet; never 0.
        ping_after: u16,
        /// Maximum time to wait for PINGRESP before ending the connection.
        response_timeout: Duration,
    },
}

/// The keep alive requested in CONNECT for a configuration: its interval, if any.
pub open spec fn keep_alive_of(value: KeepAliveConfig) -> KeepAlive {
    match value {
        KeepAliveConfig::Infinite => KeepAlive::Infinite,
        KeepAliveConfig::Duration { ping_after, .. } => KeepAlive::spec_from_u16(ping_after),
    }
}

impl From<KeepAliveConfig> for KeepAlive {
    fn from(value: KeepAliveConfig) -> (r: Self) {
        match value {
            KeepAliveConfig::Infinite => KeepAlive::Infinite,
            KeepAliveConfig::Duration { ping_after, .. } => KeepAlive::from_u16(ping_after),
        }
    }
}

impl vstd::std_specs::convert::FromSpecImpl<KeepAliveConfig> for KeepAlive {
    open spec fn obeys_from_spec() -> bool {
        true
    }

    open spec fn from_spec(v: KeepAliveConfig) -> Self {
        keep_alive_of(v)
    }
}

/// Details about a client disconnect.
#[derive(Debug)]
pub enum DisconnectedEvent {
    /// The application requested an orderly disconnect.
    ApplicationDisconnect,
    /// The server sent an MQTT DISCONNECT packet.
    ServerDisconnect(Disconnect),
    /// Transport I/O failed.
    IoError(std::io::Error),
    /// The server violated the MQTT protocol.
    ProtocolError(ProtocolError),
    /// The server did not respond to PINGREQ before the configured response timeout.
    PingTimeout,
}

} // verus!
