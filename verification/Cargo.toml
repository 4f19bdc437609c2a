[package]
name = "serde_version"
version = "0.1.0"
edition = "2021"
publish = false

[dependencies]
proc-macro2 = "=1.0.107"
proc-macro-util = "*"
quote = "=1.0.47"
serde = "=1.0.229"
syn = { version = "=1.0.109", features = ["full"] }

[dev-dependencies]
ron = "=0.12.2"
