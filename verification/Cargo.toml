[package]
name = "sillyvpn"
version = "0.1.0"
edition = "2021"
publish = false

[dependencies]
uuid = { version = "*", features = ["v4"] }
libc = "*"
serde = { version = "*", features = ["derive"] }
serde_json = "*"
