[package]
name = "fslabscli"
version = "0.1.0"
edition = "2021"
publish = false

[dependencies]
anyhow = "1"
assert_fs = "=1.1.4"
clap = { version = "4", features = ["derive", "env"] }
dunce = "1"
gix = "=0.90.0"
http = "1"
jsonwebtoken = "9"
octocrab = "=0.44.1"
regex = "=1.13.1"
serde = { version = "1", features = ["derive"] }
serde_json = "1"
tokio = { version = "1", features = ["full"] }
toml_edit = "=0.22.27"
tracing = "0.1"
walkdir = "=2.5.0"
