//! A verified MQTT 5 protocol core.
pub mod buffer_pool;
pub mod client;
pub mod error;
pub mod fuzz;
pub mod io;
pub mod mqtt_proto;
