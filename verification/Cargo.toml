[package]
name = "roker"
version = "0.1.0"
edition = "2021"
publish = false

[dependencies]
futures = "*"
log = "*"
tokio = { version = "*", features = ["net", "time", "rt-multi-thread", "macros"] }
tokio-tungstenite = "*"
tungstenite = "*"
