[package]
name = "onyx_core"
version = "0.1.0"
edition = "2021"
publish = false

[dependencies]
ropey = { version = "*", default-features = false }
pulldown-cmark = { version = "*", default-features = false }
serde = { version = "*", features = ["derive"] }
serde_json = "*"
toml = "*"
vte = "*"
