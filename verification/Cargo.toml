[package]
name = "n5011_bot"
version = "0.1.0"
edition = "2021"
publish = false

[dependencies]
chrono = "=0.4.45"
log = "=0.4.34"
native-tls = "=0.2.18"
once_cell = "=1.21.4"
postgres-native-tls = "=0.5.3"
pretty_env_logger = "0.4"
reqwest = { version = "=0.11.27", features = ["json"] }
serde = { version = "=1.0.229", features = ["derive"] }
serde_json = "=1.0.154"
teloxide = { version = "=0.5.3", features = ["auto-send"] }
tokio = { version = "=1.54.1", features = ["rt-multi-thread", "macros", "sync"] }
tokio-postgres = "=0.7.18"
tokio-stream = "=0.1.19"
tokio-util = { version = "=0.6.10", features = ["codec"] }
warp = "=0.3.7"
