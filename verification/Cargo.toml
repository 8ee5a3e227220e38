[package]
name = "flyllm"
version = "0.1.0"
edition = "2021"
publish = false

[dependencies]
rand = "*"
serde = { version = "*", features = ["derive"] }
serde_json = "*"
toml = "*"
regex = "*"
reqwest = { version = "*", default-features = false, features = ["json"] }
tokio = { version = "*", features = ["rt-multi-thread", "macros", "time", "sync"] }
async-trait = "*"
futures = "*"
log = "*"
env_logger = "*"
metrics = "*"
url = "*"
