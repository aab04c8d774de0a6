[package]
name = "opensessions-server"
version = "0.2.0"
edition = "2021"
publish = false

[dependencies]
base64 = "0.22"
futures-util = { version = "0.3", features = ["sink"] }
serde_json = "1"
sha1_smol = "1"
tokio = { version = "1", features = ["io-util", "macros", "net", "rt-multi-thread", "sync", "time"] }
tokio-websockets = { version = "0.11", features = ["server", "sha1_smol"] }
