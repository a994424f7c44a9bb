[package]
name = "tds_codepage"
version = "0.1.0"
edition = "2021"
publish = false

[dependencies]
encoding_rs = "=0.8.44"
tokio = { version = "1", default-features = false, features = ["io-util"] }

[dev-dependencies]
bytes = "=1.12.1"
