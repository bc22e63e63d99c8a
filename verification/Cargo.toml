[package]
name = "tupl_dp"
version = "0.1.0"
edition = "2021"
publish = false

[dependencies]
sha2 = "0.10"
uuid = { version = "1", features = ["v4"] }
chrono = "0.4"
rand = "0.8"
serde = { version = "1", features = ["derive"] }
serde_json = "1"
parking_lot = "0.12"
log = "0.4"
tokio = { version = "1", features = ["rt-multi-thread", "time", "macros"] }
thiserror = "1"
