[package]
name = "deadpy"
version = "0.1.0"
edition = "2021"
publish = false

[dependencies]
anyhow = "=1.0.104"
clap = { version = "=4.6.7", features = ["derive"] }
globset = "=0.4.21"
ignore = "=0.4.34"
rayon = "=1.12.0"
serde = { version = "=1.0.229", features = ["derive"] }
toml = "=0.8.23"
tree-sitter = "=0.27.1"
tree-sitter-python = "=0.25.0"
