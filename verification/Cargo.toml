[package]
name = "ufpm"
version = "0.1.0"
edition = "2021"
publish = false

[dependencies]
anyhow = "=1.0.104"
clap = { version = "=4.6.7", features = ["derive", "env"] }
clap_complete = "=4.6.11"
dialoguer = { version = "=0.12.0", default-features = false }
dirs = "=7.0.0"
futures-util = "=0.3.34"
indicatif = "=0.18.6"
reqwest = { version = "=0.12.28", default-features = false, features = ["json", "rustls-tls", "stream"] }
rusty-leveldb = "=4.0.2"
serde = { version = "=1.0.229", features = ["derive"] }
serde_json = { version = "=1.0.154", features = ["raw_value"] }
tempfile = "=3.27.0"
thiserror = "=2.0.21"
tokio = { version = "=1.54.1", features = ["rt", "macros", "fs", "io-util", "time"] }
toml = "=1.1.8"
tracing = "=0.1.44"
tracing-subscriber = "=0.3.23"
zip = { version = "8.6", default-features = false, features = ["deflate"] }
