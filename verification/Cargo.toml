[package]
name = "cos_upload"
version = "0.1.0"
edition = "2021"
publish = false

[dependencies]
chrono = "*"
hex = "*"
hmac = "*"
md5 = "*"
reqwest = { version = "*", default-features = false, features = ["blocking"] }
sha1 = "*"
urlencoding = "*"
