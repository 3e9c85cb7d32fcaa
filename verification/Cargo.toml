[package]
name = "eashy"
version = "0.1.0"
edition = "2021"
publish = false

[dependencies]
kdl = "*"
anyhow = "1"
clap = { version = "4", features = ["derive"] }
dirs = "*"
