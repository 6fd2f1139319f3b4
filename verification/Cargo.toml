[package]
name = "httptunnel"
version = "0.1.0"
edition = "2021"
publish = false

[dependencies]
regex = "*"
rand = "*"
tokio = { version = "*", features = ["full"] }
tokio-util = { version = "*", features = ["codec"] }
futures = "*"
async-trait = "*"
clap = "*"
serde = { version = "*", features = ["derive"] }
serde_yaml = "*"
humantime-serde = "*"
native-tls = "*"
log = "*"
log4rs = "*"
bytes = "*"
