[package]
name = "nexus"
version = "0.1.0"
edition = "2021"
publish = false

[dependencies]
mlua = { version = "*", features = ["lua54", "vendored"] }
sha2 = "*"
clap = { version = "*", features = ["derive"] }
dirs = "*"
walkdir = "*"
os_info = "*"
