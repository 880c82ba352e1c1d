//! Framing MQTT packets over a byte stream. The stream itself is driven by the caller: a
//! [`reader::Reader`] is handed the bytes read and says when a whole packet has arrived, and a
//! [`writer::Writer`] holds the encoded bytes until the caller has written them.
pub mod proxy;
pub mod reader;
pub mod writer;
