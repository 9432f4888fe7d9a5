[package]
name = "release_plan"
version = "0.1.0"
edition = "2021"
publish = false

[dependencies]
clap = { version = "=4.6.7", features = ["derive"] }
codeowners-rs = "=0.1.1"
env_logger = "=0.11.11"
http-body-util = "=0.1.5"
log = "=0.4.34"
octocrab = "=0.44.1"
serde = { version = "=1.0.229", features = ["derive"] }
tokio = { version = "=1.53.2", features = ["macros", "rt-multi-thread", "process", "io-util", "time"] }
toml = "=1.1.7"
