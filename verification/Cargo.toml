[package]
name = "gossamer"
version = "0.1.0"
edition = "2021"
publish = false

[dependencies]
anyhow = "1"
base64 = "0.22"
chacha20poly1305 = "0.10"
futures-util = "0.3"
hkdf = "0.12"
hmac = "0.12"
md5 = "0.7"
rand = "0.8"
rusqlite = { version = "0.31", features = ["bundled"] }
secp256k1 = { version = "0.27", features = ["rand-std"] }
serde_json = "1"
sha2 = "0.10"
tokio = { version = "1", features = ["rt-multi-thread", "macros", "time", "net"] }
tokio-tungstenite = "0.21"
url = "2"
uuid = { version = "1", features = ["v4"] }
