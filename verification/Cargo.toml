[package]
name = "unclog"
version = "0.1.0"
edition = "2021"
publish = false

[dependencies]
semver = "1"
chrono = "0.4"
url = "2"
serde = { version = "1", features = ["derive"] }
serde_json = "1"
toml = "*"
handlebars = "*"
textwrap = "*"
git2 = "*"
tempfile = "3"
