[package]
name = "champ_select_relay"
version = "0.1.0"
edition = "2021"
publish = false

[dependencies]
anyhow = "1"
base64 = "0.21"
chrono = "0.4"
futures-util = "0.3"
league-client-connector = "*"
native-tls = "0.2"
reqwest = { version = "0.11", features = ["json", "native-tls"] }
serde_json = "1"
tokio = { version = "1", features = ["full"] }
tokio-tungstenite = { version = "0.18", features = ["native-tls"] }
url = "2"
