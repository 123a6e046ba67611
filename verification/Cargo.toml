[package]
name = "blocksync"
version = "0.1.0"
edition = "2021"
publish = false

[dependencies]
clap = { version = "4", features = ["derive"] }
indicatif = "0.17"
nix = { version = "0.29", features = ["ioctl"] }
tokio = { version = "1", features = ["fs", "io-util", "macros", "rt", "sync"] }
