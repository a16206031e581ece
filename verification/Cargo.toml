[package]
name = "rirc_slack"
version = "0.1.0"
edition = "2021"
publish = false

[dependencies]
futures = "0.3"
hyper = { version = "0.14", features = ["full"] }
lazy_static = "1"
reqwest = { version = "0.11", default-features = false, features = ["json", "rustls-tls"] }
serde = { version = "1", features = ["derive"] }
serde_derive = "1"
serde_json = "1"
tokio = { version = "1", features = ["full"] }
