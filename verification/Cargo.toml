[package]
name = "range_proxy"
version = "0.1.0"
edition = "2021"
publish = false

[dependencies]
argh = "*"
futures = "*"
http-mitm-proxy = "=0.6.1"
native-tls = { version = "*", features = ["alpn"] }
rcgen = { version = "=0.13.2", features = ["pem", "x509-parser"] }
tokio = { version = "*", features = ["rt-multi-thread", "macros", "net"] }
tokio-native-tls = "*"
tracing-subscriber = { version = "*", features = ["env-filter"] }
