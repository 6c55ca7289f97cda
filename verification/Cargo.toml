[package]
name = "rist_netsim"
version = "0.1.0"
edition = "2021"
publish = false

[dependencies]
ipnetwork = "0.20"
rtnetlink = "0.13"
nix = { version = "0.27", features = ["sched", "mount", "process"] }
tokio = { version = "1", features = ["full"] }
clap = { version = "4", features = ["derive"] }
tracing = "0.1"
tracing-subscriber = { version = "0.3", features = ["env-filter"] }
anyhow = "1"
thiserror = "1"
serde = { version = "1", features = ["derive"] }
serde_json = "1"
chrono = { version = "0.4", features = ["serde"] }
uuid = { version = "1", features = ["v4", "serde"] }
dashmap = "5"
parking_lot = "0.12"
rand = "0.8"
futures = "0.3"
log = "0.4"
async-trait = "0.1"
