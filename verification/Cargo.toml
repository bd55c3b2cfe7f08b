[package]
name = "whois"
version = "0.1.0"
edition = "2021"
publish = false

[dependencies]
dashmap = "*"
encoding_rs = "*"
idna = "*"
serde_json = "*"
thiserror = "*"
tokio = { version = "*", features = ["net", "io-util"] }
