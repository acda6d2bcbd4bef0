[package]
name = "ptybridge"
version = "0.1.0"
edition = "2021"
publish = false

[dependencies]
tokio = { version = "*", features = ["rt-multi-thread", "net", "macros", "sync", "time", "io-util"] }
tokio-tungstenite = "*"
futures-util = "*"
nix = { version = "*", features = ["term", "process", "fs", "ioctl"] }
