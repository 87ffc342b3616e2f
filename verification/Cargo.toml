[package]
name = "stomp_client"
version = "0.1.0"
edition = "2021"
publish = false

[dependencies]
anyhow = "1"
bytes = "1"
futures = "0.3"
native-tls = "0.2"
tokio = { version = "1", features = ["net"] }
tokio-native-tls = "0.3"
tokio-util = { version = "0.7", features = ["codec"] }
