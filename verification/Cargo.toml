[package]
name = "modcheck"
version = "0.1.0"
edition = "2021"
publish = false

[dependencies]
fnv = "1"
itertools = "0.11"
walkdir = "2"
anyhow = "1"
thiserror = "1"
image = { version = "0.24", default-features = false, features = ["png"] }
