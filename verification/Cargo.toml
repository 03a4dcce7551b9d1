[package]
name = "adelie"
version = "0.1.0"
edition = "2021"
publish = false

[dependencies]
clap = { version = "4", features = ["derive"] }
color-eyre = "0.6"
git2 = "0.19"
lenient_semver = "0.4"
reqwest = "0.12"
serde = { version = "1", features = ["derive"] }
serde_yaml = "0.9"
tokio = { version = "1", features = ["full"] }
toml = "0.8"
toml_edit = "0.22"
url = "2"
