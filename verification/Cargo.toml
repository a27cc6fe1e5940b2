[package]
name = "open_proxies"
version = "0.1.0"
edition = "2021"
publish = false

[dependencies]
httparse = "*"
tokio = { version = "*", features = ["net", "time", "rt", "rt-multi-thread", "macros", "io-util"] }
async-std = "*"
async-tls = "*"
futures = "*"
clap = "*"
