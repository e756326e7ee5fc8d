[package]
name = "kb_mcp"
version = "0.9.2"
edition = "2021"
publish = false

[dependencies]
anyhow = "=1.0.104"
chrono = { version = "=0.4.45", features = ["serde"] }
clap = { version = "=4.6.7", features = ["derive"] }
dirs = "=7.0.0"
fastembed = { version = "*", default-features = false, features = ["hf-hub-rustls-tls", "ort-load-dynamic"] }
indicatif = "=0.18.6"
notify = "=8.2.1"
notify-debouncer-full = "=0.7.0"
regex = "=1.13.1"
reqwest = { version = "*", default-features = false, features = ["json"] }
serde = { version = "=1.0.229", features = ["derive"] }
serde_json = "=1.0.154"
serde_yaml_bw = "=2.5.8"
sha2 = "=0.10.9"
shellexpand = "=3.1.2"
tokio = { version = "=1.54.1", features = ["full"] }
toml = "=1.1.8"
toml_edit = "=0.25.17"
tracing = "=0.1.44"
tracing-appender = "=0.2.5"
tracing-subscriber = { version = "=0.3.23", features = ["env-filter"] }
walkdir = "=2.5.0"
