[package]
name = "jr"
version = "0.1.0"
edition = "2021"
publish = false

[dependencies]
serde = { version = "=1.0.229", features = ["derive"] }
serde_json = "=1.0.154"
toml = "=1.1.8"
figment = { version = "=0.10.19", features = ["toml", "env"] }
dirs = "=7.0.0"
anyhow = "=1.0.104"
thiserror = "=2.0.21"
clap = { version = "=4.6.7", features = ["derive"] }
colored = "=3.1.1"
comfy-table = "=8.0.1"
reqwest = { version = "=0.13.5", default-features = false }
chrono = { version = "=0.4.45", default-features = false, features = ["std"] }
url = "=2.5.8"

[dev-dependencies]
