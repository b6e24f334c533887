[package]
name = "tms"
version = "0.1.0"
edition = "2021"
publish = false

[dependencies]
clap = { version = "4", features = ["cargo"] }
error-stack = "0.4"
git2 = { version = "0.18", default-features = false }
shellexpand = "3"
