[package]
name = "graphctl"
version = "0.1.0"
edition = "2021"
publish = false

[dependencies]
anyhow = "=1.0.104"
bytes = "=1.12.1"
chrono = "=0.4.45"
clap = { version = "=4.6.7", features = ["derive", "env"] }
dialoguer = "=0.12.0"
hex = "=0.4.3"
home = "=0.5.12"
keyring = "=3.6.3"
libsql = "=0.9.30"
ring = "=0.17.14"
serde = { version = "=1.0.229", features = ["derive"] }
serde_json = "=1.0.151"
tokio = { version = "=1.53.2", features = ["macros", "rt-multi-thread"] }
toml = "=1.1.7"
uuid = { version = "=1.27.0", features = ["v4"] }
