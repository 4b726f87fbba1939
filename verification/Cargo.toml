[package]
name = "trade_journal"
version = "0.1.0"
edition = "2021"
publish = false

[dependencies]
uuid = { version = "1", features = ["v4"] }
chrono = "0.4"
bcrypt = "0.15"
sha2 = "0.10"
secp256k1 = { version = "0.28", features = ["rand-std"] }
hex = "0.4"
jsonwebtoken = "9"
serde = { version = "1", features = ["derive"] }
serde_json = "1"

[dev-dependencies]
rand = "0.8"
