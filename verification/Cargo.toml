[package]
name = "portal"
version = "0.1.0"
edition = "2021"
publish = false

[dependencies]
anyhow = "1"
clap = { version = "4", features = ["derive"] }
hcl-rs = "*"
humansize = "2"
ipnet = "2"
lazy_static = "1"
quinn = "0.11"
rand = "0.9"
regex = "1"
rustls = "0.23"
serde = { version = "1", features = ["derive"] }
serde_json = "1"
short-uuid = "*"
strum = { version = "*", features = ["derive"] }
tokio = { version = "1", features = ["full"] }
tracing = "0.1"
tracing-subscriber = { version = "0.3", features = ["env-filter"] }
