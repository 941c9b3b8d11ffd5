[package]
name = "reverse_proxy"
version = "0.1.0"
edition = "2021"
publish = false

[dependencies]
http = "1"
hyper = { version = "1", features = ["client", "server", "http1", "http2"] }
hyper-util = { version = "0.1", features = ["tokio", "server", "server-auto", "http1", "http2"] }
http-body-util = "0.1"
bytes = "1"
tokio = { version = "1", features = ["full"] }
native-tls = "0.2"
tokio-native-tls = "0.3"
serde = { version = "1", features = ["derive"] }
serde_json = "1"
