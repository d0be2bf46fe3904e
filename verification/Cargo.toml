[package]
name = "omnifs_sdk"
version = "0.1.0"
edition = "2021"
publish = false

[dependencies]
hashbrown = "0.15"
hex = "0.4"
http = "1"
serde = { version = "1", features = ["derive"] }
serde_json = "1"
thiserror = "2"
url = "2"
