[package]
name = "wallet_checker"
version = "0.1.0"
edition = "2021"
publish = false

[dependencies]
clap = { version = "*", features = ["derive"] }
dirs = "*"
reqwest = { version = "*", default-features = false, features = ["json"] }
serde = { version = "*", features = ["derive"] }
stellar-rpc-client = "*"
stellar-xdr = "*"
tokio = { version = "*", features = ["rt-multi-thread", "macros"] }
toml = "*"
