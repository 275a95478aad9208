[package]
name = "arcana"
version = "0.1.0"
edition = "2021"
publish = false

[dependencies]
chrono = { version = "0.4", features = ["serde"] }
crossterm = "0.28"
dirs = "5"
futures = "0.3"
glob-match = "0.2"
ort = { version = "2.0.0-rc.10", default-features = false }
ratatui = "0.29"
reqwest = { version = "0.12", default-features = false, features = ["json", "stream", "rustls-tls"] }
rusqlite = { version = "0.32", features = ["bundled"] }
serde = { version = "1", features = ["derive"] }
serde_json = "1"
sqlite-vec = "0.1"
syntect = { version = "5", default-features = false, features = ["default-fancy"] }
thiserror = "1"
tokio = { version = "1", features = ["rt-multi-thread", "macros", "sync"] }
toml = "0.8"
uuid = { version = "1", features = ["v4"] }
zerocopy = "0.8"
