[package]
name = "bashtestmd"
version = "0.1.0"
edition = "2021"
publish = false

[dependencies]
clap = { version = "4", features = ["derive"] }
markdown = "1"
shell-escape = "0.1.5"
