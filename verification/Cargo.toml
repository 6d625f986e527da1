[package]
name = "stagewhisper"
version = "0.1.0"
edition = "2021"
publish = false

[dependencies]
chacha20poly1305 = "0.10"
hkdf = "0.12"
sha2 = "0.10"
x25519-dalek = { version = "2", features = ["static_secrets"] }
ed25519-dalek = { version = "2", features = ["rand_core"] }
rand = "0.8"
getrandom = "0.3"
uuid = { version = "1", features = ["v4"] }
base64 = "0.22"
serde = { version = "1", features = ["derive"] }
serde_json = "1"
subtle = "2"
zeroize = { version = "1", features = ["derive"] }
chrono = "0.4"
reqwest = { version = "0.12", default-features = false, features = ["json", "stream"] }
anyhow = "1"
thiserror = "2"
log = "0.4"
tokio = { version = "1", features = ["full"] }
axum = "0.8"
futures-util = "0.3"
dirs = "6"
crossbeam-channel = "0.5"
hound = "3"
