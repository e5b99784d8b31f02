[package]
name = "file_server_core"
version = "0.1.0"
edition = "2021"
publish = false

[dependencies]
async-stream = "=0.3.6"
bytes = "=1.12.1"
futures = "=0.3.34"
h3 = "=0.0.1"
h3-quinn = "=0.0.1"
http = "=0.2.12"
hyper = { version = "=0.14.32", features = ["server", "http1", "http2", "tcp", "stream"] }
quinn = { version = "=0.8.5", default-features = false, features = ["tls-rustls", "ring"] }
rcgen = "=0.9.3"
rustls = "=0.20.9"
rustls-pemfile = "=0.2.1"
structopt = "=0.3.26"
tokio = { version = "=1.54.1", features = ["full"] }
tokio-rustls = "=0.23.4"
tracing = "=0.1.44"
tracing-subscriber = { version = "=0.3.23", features = ["env-filter"] }
