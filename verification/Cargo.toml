[package]
name = "rust_workshop"
version = "0.1.0"
edition = "2021"
publish = false

[dependencies]
sha2 = "0.10"
blake3 = "1"
tiny-keccak = { version = "2", features = ["keccak"] }
hex = "0.4"
k256 = { version = "0.13", features = ["ecdsa"] }
coins-bip32 = "0.12"
bip39 = "2"
argon2 = "0.5"
chrono = "0.4"
jsonwebtoken = "9"
uuid = { version = "1", features = ["v4"] }
rand = "0.9"
serde = { version = "1", features = ["derive"] }
serde_json = "1"
anyhow = "1"
thiserror = "2"
clap = { version = "4", features = ["derive"] }
dialoguer = "0.11"
tokio = { version = "1", features = ["full"] }
reqwest = { version = "0.12", default-features = false, features = ["json"] }
axum = "0.8"
sea-orm-migration = { version = "1", default-features = false }
async-trait = "0.1"
dotenv = "0.15"
tower_governor = "0.7"
