[package]
name = "statechain"
version = "0.1.0"
edition = "2021"
publish = false

[dependencies]
bitcoin = "=0.30.3"
secp256k1-zkp = "=0.9.2"
hex = "=0.4.3"
ecies = { version = "=0.2.11", default-features = false, features = ["pure", "std"] }
uuid = { version = "=1.29.0", features = ["v4"] }
serde = { version = "=1.0.229", features = ["derive"] }
serde_json = "=1.0.154"
miniscript = "=10.2.3"
reqwest = { version = "=0.11.27", default-features = false, features = ["json"] }
rocket = { version = "=0.5.2", features = ["json"] }
sqlx = { version = "=0.7.4", default-features = false, features = ["runtime-tokio", "postgres"] }
electrum-client = { version = "=0.18.0", default-features = false, features = ["minimal"] }
config = { version = "=0.13.4", default-features = false, features = ["toml"] }
