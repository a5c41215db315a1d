[package]
name = "socksx"
version = "0.1.1"
edition = "2021"
publish = false

[dependencies]
url = "2"
anyhow = "1"
async-trait = "0.1"
clap = { version = "4", features = ["derive", "env"] }
dotenv = "0.15"
env_logger = "0.11"
human-panic = "2"
itertools = "0.13"
log = "0.4"
nix = { version = "0.29", features = ["socket", "net"] }
tokio = { version = "1", features = ["full"] }
