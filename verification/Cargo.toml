[package]
name = "decone"
version = "0.1.0"
edition = "2021"
publish = false

[dependencies]
base64 = "*"
clap = "*"
openssl = "*"
rpassword = "*"
serde_json = "*"
