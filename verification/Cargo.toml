[package]
name = "node_core"
version = "0.1.0"
edition = "2021"
publish = false

[dependencies]
minicbor = { version = "*", features = ["std"] }
clap = { version = "*", features = ["derive"] }
tokio = { version = "*", features = ["full"] }
either = "*"
