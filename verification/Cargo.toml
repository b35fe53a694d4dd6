[package]
name = "compute_broker"
version = "0.1.0"
edition = "2021"
publish = false

[dependencies]
uuid = "=1.27.0"
tokio = { version = "=1.53.2", features = ["full"] }
tokio-util = { version = "=0.7.19", features = ["full"] }
tonic = "=0.14.6"
futures = "=0.3.34"
mysql = { version = "=28.0.3", default-features = false, features = ["minimal-rust", "derive", "buffer-pool"] }
clap = { version = "=4.6.7", features = ["derive"] }
