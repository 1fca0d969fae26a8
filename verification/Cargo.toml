[package]
name = "bridgehead"
version = "0.1.0"
edition = "2021"
publish = false

[dependencies]
anyhow = "1"
askama = "*"
bcrypt = "*"
clap = { version = "4", features = ["derive", "env"] }
rand = "0.9"
rcgen = "*"
serde = { version = "1", features = ["derive"] }
serde_json = "1"
toml = "*"
url = "2"
