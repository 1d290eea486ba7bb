[package]
name = "plaatbook"
version = "0.1.0"
edition = "2021"
publish = false

[dependencies]
base64 = "=0.23.1"
getrandom = "=0.4.3"
pbkdf2 = { version = "=0.12.2", features = ["simple"] }
simple-useragent = "=0.1.3"
uuid = { version = "=1.27.0", features = ["v7"] }
