[package]
name = "hyper-reverse-proxy"
version = "0.1.0"
edition = "2021"
publish = false

[dependencies]
hyper = { version = "1", features = ["client", "server", "http1", "http2"] }
hyper-util = { version = "0.1", features = ["client", "client-legacy", "http1", "http2", "tokio"] }
thiserror = "1"
tokio = { version = "1", features = ["rt", "rt-multi-thread", "io-util", "net", "time"] }
tracing = "0.1"

[dev-dependencies]
http-body-util = "0.1"
