[package]
name = "football_json_loader"
version = "0.1.0"
edition = "2021"
publish = false

[dependencies]
argparse = "0.2"
chrono = "0.4"
env_logger = "*"
git2 = "*"
log = "0.4"
rusqlite = { version = "*", features = ["chrono"] }
serde = { version = "1", features = ["derive"] }
serde_json = "1"
