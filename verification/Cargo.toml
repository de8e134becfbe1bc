[package]
name = "smcp"
version = "0.2.0"
edition = "2021"
publish = false

[dependencies]
mailparse = "0.16"
lettre = { version = "0.11", features = ["tokio1", "tokio1-native-tls"] }
imap = "2.4"
native-tls = "0.2"
rmcp = { version = "0.1", features = ["server", "transport-io"] }
schemars = "0.8"
serde = { version = "1", features = ["derive"] }
serde_json = "1"
tokio = { version = "1", features = ["full"] }
clap = { version = "4", features = ["derive"] }
