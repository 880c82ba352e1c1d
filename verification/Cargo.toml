[package]
name = "ms_mqtt_client"
version = "0.1.0"
edition = "2021"
publish = false

[dependencies]
indexmap = "=2.14.2"
openssl = "0.10"
serde = { version = "=1.0.229", features = ["derive"] }
thiserror = "=2.0.21"
tokio = { version = "=1.54.1", features = ["io-util", "net", "rt", "macros", "time", "sync"] }
