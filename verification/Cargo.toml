[package]
name = "paxos_vc"
version = "1.0.0"
edition = "2021"
publish = false

[dependencies]
bytes = "=0.4.12"
clap = "=2.34.0"
flexi_logger = "=0.14.8"
futures-preview = { version = "=0.3.0-alpha.19", features = ["async-await"] }
log = "=0.4.34"
tokio = "=0.2.0-alpha.6"
