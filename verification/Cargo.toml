[package]
name = "favicons"
version = "0.1.0"
edition = "2021"
publish = false

[dependencies]
regex = "*"
url = "*"
data-url = "*"
soup = "*"
reqwest = { version = "*", default-features = false, features = ["blocking"] }
