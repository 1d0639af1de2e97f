[package]
name = "gaia"
version = "0.1.2"
edition = "2021"
publish = false

[dependencies]
json = "0.12"
xz = "0.1"
flate2 = "1"
tar = "0.4"
zip = "*"
colored = "*"
reqwest = { version = "0.12", default-features = false, features = ["blocking", "rustls-tls"] }
