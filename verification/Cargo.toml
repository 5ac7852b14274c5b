[package]
name = "channel_bot"
version = "0.1.0"
edition = "2021"
rust-version = "1.95"
publish = false

[dependencies]
anyhow = "1"
chrono = "=0.4.45"
dotenvy = "0.15"
grammers-client = "0.7"
grammers-session = "0.7"
grammers-tl-types = "0.7"
log = "0.4"
rand = "0.8"
reqwest = { version = "0.11", default-features = false, features = ["json", "rustls-tls"] }
rusqlite = { version = "0.31", features = ["bundled"] }
serde = { version = "1", features = ["derive"] }
serde_json = "=1.0.154"
takecell = "=0.1.1"
teloxide = { version = "0.12", default-features = false, features = ["rustls", "ctrlc_handler", "macros"] }
tokio = { version = "1", features = ["full"] }
tracing = "0.1"
url = "=2.5.8"
