[package]
name = "cargo_intraconv"
version = "1.2.0"
edition = "2021"
publish = false

[dependencies]
ansi_term = "=0.12.1"
argh = "=0.1.19"
cargo_metadata = "=0.12.3"
glob = "=0.3.4"
regex = "1"
regex-syntax = "0.8"
serde = { version = "=1.0.229", features = ["derive"] }
toml = "=0.5.11"
