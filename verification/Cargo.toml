[package]
name = "irelia"
version = "0.1.0"
edition = "2021"
publish = false

[dependencies]
serde = "1"
serde_json = "1"
rmp-serde = "1"
hyper = { version = "1", features = ["http1", "client"] }
hyper-util = { version = "0.1", features = ["client-legacy", "http1", "tokio"] }
http-body-util = "0.1"
hyper-rustls = "0.27"
hyper-tls = "0.6"
tokio = { version = "1", features = ["rt"] }
futures-util = "0.3"
