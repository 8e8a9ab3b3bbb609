[package]
name = "tg_adapter"
version = "0.1.0"
edition = "2021"
publish = false

[dependencies]
anyhow = "=1.0.104"
base64 = "=0.22.1"
dptree = "=0.5.1"
log = "=0.4.35"
serde = { version = "=1.0.229", features = ["derive"] }
serde_json = "=1.0.154"
takecell = "=0.1.1"
teloxide = { version = "=0.17.0", default-features = false }
tokio = { version = "=1.54.1", features = ["rt", "time"] }
toml = "=1.1.8"
url = "=2.5.8"
