[package]
name = "wasicycles"
version = "0.1.0"
edition = "2021"
publish = false

[dependencies]
base64 = "0.21"
hyper = { version = "0.14", features = ["full"] }
hyper-rustls = { version = "0.24", features = ["webpki-roots", "http1"] }
serde = { version = "1", features = ["derive"] }
serde_json = "1"
tokio = { version = "1", features = ["rt", "net", "time", "macros"] }
