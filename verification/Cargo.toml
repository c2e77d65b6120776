[package]
name = "mailsync"
version = "0.1.0"
edition = "2021"
publish = false

[dependencies]
base64 = "*"
zeroize = "*"
openssl = "*"
docopt = "*"
serde = { version = "*", features = ["derive"] }
