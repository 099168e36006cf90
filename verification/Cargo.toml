[package]
name = "tick_bridge"
version = "0.1.0"
edition = "2021"
publish = false

[dependencies]
futures-util = "*"
serde = { version = "*", features = ["derive"] }
tokio = { version = "=1.53.2", features = ["rt-multi-thread", "macros", "time", "sync"] }
zbus = "=5.19.0"
