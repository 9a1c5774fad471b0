[package]
name = "devscripts"
version = "0.1.0"
edition = "2021"
publish = false

[dependencies]
anyhow = "1"
clap = { version = "4", features = ["cargo"] }
config = { version = "*", default-features = false, features = ["toml"] }
figment = { version = "0.10", features = ["toml"] }
git-version = "0.3"
git2 = { version = "*", default-features = false }
home = "0.5"
serde = { version = "1", features = ["derive"] }
thiserror = "1"
