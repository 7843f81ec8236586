[package]
name = "ipc_web_monitor"
version = "0.1.0"
edition = "2021"
publish = false

[dependencies]
chrono = "0.4"
futures = "0.3"
tokio = { version = "1", features = ["full"] }
warp = "0.3"
