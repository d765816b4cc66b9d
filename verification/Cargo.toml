[package]
name = "snapsync"
version = "0.1.0"
edition = "2021"
publish = false

[dependencies]
md-5 = "*"
flate2 = "*"
tokio = { version = "*", features = ["full"] }
reqwest = { version = "*", default-features = false, features = ["stream"] }
clap = { version = "*", features = ["derive"] }
tar = "*"
futures-util = "*"
thiserror = "*"
