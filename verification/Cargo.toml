[package]
name = "patch_release_me"
version = "0.1.0"
edition = "2021"
publish = false

[dependencies]
anyhow = "*"
clap = { version = "*", features = ["derive", "env"] }
console = "*"
dialoguer = { version = "*", features = ["fuzzy-select"] }
env_logger = "*"
glob = "*"
log = "*"
regex = "*"
serde = { version = "*", features = ["derive"] }
serde_yaml = "*"
thiserror = "*"
