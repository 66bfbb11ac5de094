[package]
name = "lnkr"
version = "0.1.0"
edition = "2021"
publish = false

[dependencies]
base64 = "0.22"
chrono = "0.4"
fastly = "0.11"
rand = "0.8"
random_word = { version = "0.4", features = ["en"] }
serde = { version = "1", features = ["derive"] }
serde_json = "1"
serde_with = "3"
sha2 = "0.10"
thiserror = "1"
url = "2"
