[package]
name = "n34"
version = "0.1.0"
edition = "2021"
publish = false

[dependencies]
convert_case = "*"
nostr = "*"
nostr-sdk = "*"
nostr-connect = "*"
tokio = { version = "*", features = ["full"] }
clap = { version = "*", features = ["derive"] }
futures = "*"
either = "*"
serde = { version = "*", features = ["derive"] }
toml = "*"
dirs = "*"
tempfile = "*"
thiserror = "*"
