[package]
name = "lanclip"
version = "0.1.0"
edition = "2021"
publish = false

[dependencies]
blake3 = "1"
chacha20poly1305 = "0.10"
ed25519-dalek = "2"
rand = "0.8"
anyhow = "1"
hex = "0.4"
rmp-serde = "1"
serde = { version = "1", features = ["derive"] }
serde_json = "1"
rusqlite = { version = "0.32", features = ["bundled"] }
keyring = "3"
quinn = { version = "0.11", default-features = false, features = ["runtime-tokio", "rustls-ring", "log"] }
rustls = { version = "0.23", default-features = false, features = ["ring", "std", "logging", "tls12"] }
rcgen = { version = "0.13", default-features = false, features = ["crypto", "ring", "pem"] }
tokio = { version = "1", features = ["full"] }
mdns-sd = "0.11"
if-addrs = "0.13"
uuid = { version = "1", features = ["v4"] }
chrono = "0.4"
whoami = "1"
arboard = { version = "3", default-features = false }
tracing = "0.1"
tracing-subscriber = { version = "0.3", features = ["fmt", "env-filter"] }
