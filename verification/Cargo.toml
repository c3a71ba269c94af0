[package]
name = "the-light-core"
version = "0.1.0"
edition = "2021"
publish = false

[dependencies]
regex = "=1.13.1"
serde = { version = "=1.0.229", features = ["derive"] }
serde_json = "=1.0.154"
toml = "=1.1.8"
directories = "=6.0.0"
chrono = "=0.4.45"
ratatui = "*"
rusqlite = { version = "*", features = ["bundled"] }
reqwest = { version = "0.12", default-features = false, features = ["blocking", "json", "rustls-tls"] }
unicode-width = "*"

[dev-dependencies]
tempfile = "=3.27.0"
