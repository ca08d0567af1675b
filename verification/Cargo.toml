[package]
name = "albumctl"
version = "0.1.0"
edition = "2021"
publish = false

[dependencies]
blake3 = "1"
clap = { version = "4", features = ["derive"] }
colored = "*"
error-stack = "*"
indoc = "2"
postcard = { version = "1", features = ["use-std"] }
serde = { version = "1", features = ["derive"] }
thiserror = "*"
toml = "*"
