[package]
name = "forge"
version = "0.1.0"
edition = "2021"
publish = false

[dependencies]
heck = "0.5"
edit-distance = "2"
tera = "1"
clap = { version = "4", features = ["derive", "env"] }
clap_complete = "4"
console = "*"
anyhow = "1"
serde = { version = "1", features = ["derive"] }
serde_json = "1"
rust-embed = "8"
thiserror = "*"
tracing = "0.1"
tracing-subscriber = { version = "0.3", features = ["env-filter"] }
supports-color = "*"
