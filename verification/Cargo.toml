[package]
name = "tokio-dtls-example"
version = "0.1.0"
edition = "2021"
publish = false

[dependencies]
bytes = "0.4"
env_logger = "0.5"
futures = "0.1"
log = "0.4"
openssl = "0.10"
tokio = "0.1"
tokio-codec = "0.1"
tokio-openssl = "0.2"
