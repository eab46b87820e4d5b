[package]
name = "uwiki_cli"
version = "0.1.0"
edition = "2021"
publish = false

[dependencies]
anyhow = "*"
reqwest = { version = "*", default-features = false, features = ["blocking", "json"] }
serde = "*"
serde_derive = "*"
structopt = "*"
tempfile = "*"
toml = "*"
xdg = "*"
