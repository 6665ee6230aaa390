[package]
name = "mpvrc"
version = "0.3.0"
edition = "2021"
publish = false

[dependencies]
serde_json = "1"
tokio = { version = "1", features = ["full"] }
clap = { version = "4", features = ["derive"] }
clap_complete = "4"
rustyline = "*"
dirs = "*"
native-tls = "0.2"
tokio-native-tls = "0.3"
tracing = "0.1"
tracing-subscriber = "0.3"
