[package]
name = "untracker"
version = "0.1.0"
edition = "2021"
publish = false

[dependencies]
linkify = "=0.11.0"
url = "=2.5.8"
nostr = { version = "=0.45.5", features = ["nip04"] }
nostr-sdk = "=0.45.4"
tokio = { version = "=1.53.2", features = ["full"] }
anyhow = "*"
log = "*"
dotenvy = "*"
env_logger = "*"
