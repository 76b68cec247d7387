[package]
name = "capsule"
version = "0.1.0"
edition = "2021"
publish = false

[dependencies]
md5 = "0.7"
sha2 = "0.10"
urlencoding = "2"
url = "2"
serde = { version = "1", features = ["derive"] }
serde_json = "1"
toml = "0.8"
thiserror = "2"
tracing = "0.1"
tracing-subscriber = { version = "0.3", features = ["env-filter"] }
tokio = { version = "1", features = ["fs", "rt", "time", "macros"] }
reqwest = { version = "0.12", default-features = false, features = ["json", "gzip", "rustls-tls"] }
http = "1"
keyring = "3"
lofty = "0.22"
walkdir = "2"
rusqlite = { version = "0.32", features = ["bundled"] }
rodio = "0.21"
discord-rich-presence = "1"
