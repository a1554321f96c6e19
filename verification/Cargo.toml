[package]
name = "dnsblackhole"
version = "0.1.0"
edition = "2021"
publish = false

[dependencies]
argon2 = "*"
chrono = "*"
getrandom = "*"
libc = "*"
serde = { version = "*", features = ["derive"] }
serde_json = "*"
sha2 = "*"
