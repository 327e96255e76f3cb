[package]
name = "opossum"
version = "0.1.0"
edition = "2021"
publish = false

[dependencies]
petgraph = "0.6"
uuid = { version = "1", features = ["v4"] }
colorous = "1"
serde = { version = "1", features = ["derive"] }
ron = "0.8"
log = "0.4"
