[package]
name = "plugin_catalogue"
version = "0.1.0"
edition = "2021"
publish = false

[dependencies]
semver = "=1.0.28"
url = "=2.5.8"
sha2 = "0.10"
anyhow = "=1.0.104"
clap = { version = "=3.2.25", features = ["derive"] }
dialoguer = "=0.10.4"
rusqlite = { version = "=0.29.0", features = ["bundled"] }
tracing = { version = "=0.1.44", features = ["log"] }
