[package]
name = "photothing"
version = "0.1.0"
edition = "2021"
publish = false

[dependencies]
harsh = "*"
bcrypt = "*"
mailchecker = "*"
zxcvbn = "*"
chrono = "*"
uuid = { version = "*", features = ["v4"] }
