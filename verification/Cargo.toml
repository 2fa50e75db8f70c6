[package]
name = "traffic_telemetry"
version = "0.1.0"
edition = "2021"
publish = false

[dependencies]
uuid = { version = "1", features = ["v4"] }
postcard = { version = "1", features = ["use-std"] }
serde = { version = "1", features = ["derive"] }
crossterm = "*"
