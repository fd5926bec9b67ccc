[package]
name = "ledger"
version = "0.1.0"
edition = "2021"
publish = false

[dependencies]
sha2 = "0.10"
hex = "0.4"
serde = { version = "1", features = ["derive"] }
actix-web = "4"
