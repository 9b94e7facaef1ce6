[package]
name = "fit_fixer"
version = "0.1.0"
edition = "2021"
publish = false

[dependencies]
anyhow = "=1.0.104"
chrono = "=0.4.45"
clap = { version = "=4.6.7", features = ["derive", "env"] }
clap-verbosity-flag = "=2.2.3"
env_logger = "=0.10.2"
glob = "=0.3.4"
inquire = { version = "=0.7.5", features = ["date"] }
log = "=0.4.34"
reqwest = { version = "=0.11.27", features = ["blocking", "multipart"] }
serde = { version = "=1.0.229", features = ["derive"] }
serde_json = "=1.0.154"
uuid = { version = "=1.29.0", features = ["v4"] }
