[package]
name = "tcping"
version = "0.1.0"
edition = "2021"
publish = false

[dependencies]
clap = { version = "4", features = ["derive"] }
trust-dns-resolver = "0.23"
