[package]
name = "drop_backend"
version = "0.1.0"
edition = "2021"
publish = false

[dependencies]
sha2 = "*"
rand = "*"
dashmap = "*"
serde = { version = "*", features = ["derive"] }
serde_json = "*"
async-trait = "*"
indicatif = "*"
thiserror = "*"
