[package]
name = "mdbook-quiz"
version = "0.1.0"
edition = "2021"
publish = false

[dependencies]
anyhow = "1"
html-escape = "0.2"
mdbook = { version = "0.4", default-features = false }
pulldown-cmark = { version = "0.9", default-features = false }
pulldown-cmark-to-cmark = "10"
serde_json = "1"
toml = "0.5"

[dev-dependencies]
regex = "1"
