[package]
name = "sep2_tls"
version = "0.1.0"
edition = "2021"
publish = false

[dependencies]
anyhow = "1"
hyper = { version = "0.14", features = ["client", "http1", "server", "stream", "tcp"] }
hyper-rustls = "0.24"
log = "0.4"
rustls = { version = "0.21", features = ["dangerous_configuration"] }
rustls-pemfile = "1"
tokio = { version = "1", features = ["macros", "net", "rt", "rt-multi-thread"] }
tokio-rustls = "0.24"
x509-parser = { version = "0.16", features = ["verify"] }
x509-verify = "0.4"
