[package]
name = "snake_runtime"
version = "0.1.0"
edition = "2021"
publish = false

[dependencies]
wasmer = "=6.1.0"
clap = { version = "*", features = ["derive"] }
cli-table = "*"
colored = "*"
serde = { version = "*", features = ["derive"] }
serde_json = "*"
