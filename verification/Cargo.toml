[package]
name = "blaze"
version = "0.1.0"
edition = "2021"
publish = false

[dependencies]
semver = "1"
serde = { version = "1", features = ["derive"] }
serde_json = "1"
bincode = "1.3"
reqwest = "0.12"
tokio = { version = "1", features = ["rt-multi-thread", "macros", "time"] }
indicatif = "0.17"
tar = "0.4"
flate2 = "1"
inquire = "0.7"
colored = "2"
clap = { version = "4", features = ["derive"] }
