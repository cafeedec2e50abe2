[package]
name = "xcopr"
version = "0.1.0"
edition = "2021"
publish = false

[dependencies]
clap = { version = "4", features = ["derive"] }
shell-escape = "0.1"
tempfile = "3"
