[package]
name = "barepass"
version = "0.1.0"
edition = "2021"
publish = false

[dependencies]
argon2 = "*"
chacha20poly1305 = "*"
getrandom = "*"
zeroize = "*"
serde = { version = "*", features = ["derive"] }
serde_json = "*"
crossterm = "*"
ratatui = "*"
arboard = { version = "*", default-features = false }
