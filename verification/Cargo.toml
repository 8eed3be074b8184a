[package]
name = "queuewatch"
version = "0.1.0"
edition = "2021"
publish = false

[dependencies]
serde_json = "=1.0.151"
serde = { version = "=1.0.229", features = ["derive"] }
serde_yaml = "=0.9.34"
reqwest = { version = "=0.12.28", default-features = false, features = ["json"] }
tokio = { version = "=1.53.2", features = ["rt-multi-thread", "macros", "time"] }
teloxide = { version = "=0.17.0", default-features = false }
takecell = "=0.1.1"
log = "=0.4.34"
pretty_env_logger = "=0.5.0"
