[package]
name = "ldk_controller"
version = "0.1.0"
edition = "2021"
publish = false

[dependencies]
bip321 = "0.1"
ldk-node = "=0.7.1"
nostr-sdk = { version = "0.44", features = ["nip04", "nip44", "nip47"] }
nwc = "0.44"
serde = { version = "1", features = ["derive"] }
serde_json = "1"
tokio = { version = "1", features = ["full"] }
toml = "*"
tracing-subscriber = { version = "0.3", features = ["env-filter"] }
vls-core = "=0.14.0"
