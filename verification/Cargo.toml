[package]
name = "matrix_bridge"
version = "0.1.0"
edition = "2021"
publish = false

[dependencies]
subtle = "2"
url = "2"
urlencoding = "2"
base64 = "0.22"
sha2 = "0.10"
aes = "0.8"
ctr = "0.9"
getrandom = "0.2"
ammonia = "4"
ulid = "1"
indexmap = "2"
serde = { version = "1", features = ["derive"] }
serde_json = "1"
serde_yaml = "0.9"
toml = "0.8"
anyhow = "1"
thiserror = "2"
tokio = { version = "1", features = ["net", "rt", "sync", "macros"] }
dashmap = "6"
