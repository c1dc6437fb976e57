[package]
name = "imap_quota"
version = "0.1.0"
edition = "2021"
publish = false

[dependencies]
serde = { version = "*", features = ["derive"] }
arbitrary = { version = "*", features = ["derive"] }
bounded-static = { version = "*", features = ["derive"] }
