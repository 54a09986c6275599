[package]
name = "repo_archive"
version = "0.1.0"
edition = "2021"
publish = false

[dependencies]
anyhow = "=1.0.104"
base16ct = { version = "=1.0.0", features = ["alloc"] }
chrono = "=0.4.45"
clap = { version = "=4.6.7", features = ["derive"] }
git2 = "0.20"
indicatif = "=0.18.6"
infer = "=0.22.0"
log = "=0.4.34"
notify = "=8.2.0"
octocrab = "0.47"
pretty_env_logger = "=0.5.0"
rayon = "=1.12.0"
serde = { version = "=1.0.229", features = ["derive"] }
serde_json = "=1.0.154"
sha2 = "0.10"
tiny_http = "=0.12.0"
tokio = { version = "=1.54.1", features = ["rt-multi-thread"] }
walkdir = "=2.5.0"
