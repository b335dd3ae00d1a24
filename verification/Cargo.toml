[package]
name = "rcurl"
version = "0.1.0"
edition = "2021"
publish = false

[dependencies]
anyhow = "1"
bytes = "1"
chrono = "0.4"
clap = { version = "4", features = ["derive"] }
form-data-builder = "*"
futures = "0.3"
http-body-util = "0.1"
hyper = { version = "1", features = ["client", "http1", "http2"] }
hyper-rustls = "*"
hyper-util = { version = "0.1", features = ["client-legacy", "http1", "http2", "tokio"] }
indicatif = "0.17"
mime_guess = "2"
rustls = "0.23"
rustls-pemfile = "2"
rustls-pki-types = "1"
serde = { version = "1", features = ["derive"] }
serde_json = "1"
tokio = { version = "1", features = ["full"] }
tokio-rustls = "*"
tower-service = "0.3"
tracing = "0.1"
tracing-subscriber = "0.3"
webpki-roots = "*"
x509-parser = "*"
