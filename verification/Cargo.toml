[package]
name = "sensor_sniffer"
version = "0.1.0"
edition = "2021"
publish = false

[dependencies]
hex = "0.4"
regex = "1"
rand = "0.8"
apache-avro = "0.16"
serde = { version = "1", features = ["derive"] }
serde_json = "1"
tungstenite = "0.21"
tokio = { version = "1", features = ["rt-multi-thread", "macros", "sync", "time"] }
sysinfo = "0.31"
ini = "1"
ctrlc = "3"
env_logger = "0.11"
log = "0.4"
