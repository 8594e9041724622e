[package]
name = "meta_mystia_network"
version = "0.1.0"
edition = "2021"
publish = false

[dependencies]
bytes = "1"
futures-util = { version = "0.3", features = ["sink"] }
hostname = "0.4"
lz4_flex = "*"
mdns-sd = "*"
parking_lot = "0.12"
postcard = { version = "1", features = ["use-std"] }
rand = "0.9"
serde = { version = "1", features = ["derive"] }
socket2 = { version = "*", features = ["all"] }
tokio = { version = "1", features = ["full"] }
tokio-util = { version = "0.7", features = ["codec", "rt"] }
tracing = "0.1"
tracing-subscriber = { version = "0.3", features = ["env-filter"] }
