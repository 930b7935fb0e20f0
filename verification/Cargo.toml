[package]
name = "thugsrf"
version = "0.1.0"
edition = "2021"
publish = false

[dependencies]
anyhow = "1"
base64 = "0.22"
clap = { version = "4", features = ["derive"] }
crossterm = "0.28"
ctrlc = "3"
hound = "3"
png = "0.17"
ratatui = "0.29"
reqwest = { version = "0.12", default-features = false, features = ["blocking", "json", "rustls-tls"] }
rusqlite = { version = "0.32", features = ["bundled"] }
rustfft = "6"
serde = { version = "1", features = ["derive"] }
serde_json = "1"
shlex = "1"
toml = "0.8"
