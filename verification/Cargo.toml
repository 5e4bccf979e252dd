[package]
name = "ncrs"
version = "0.3.0"
edition = "2021"
publish = false

[dependencies]
anyhow = "1"
base64 = "0.22"
clap = { version = "4", features = ["derive"] }
colored = "3"
figlet-rs = "0.1"
libc = "0.2"
rand = "0.9"
rustls-native-certs = "0.8"
rustls-pemfile = "2"
tokio = { version = "1", features = ["full"] }
tokio-rustls = { version = "0.26", default-features = false, features = ["ring", "tls12", "logging"] }
