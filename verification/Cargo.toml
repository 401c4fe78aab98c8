[package]
name = "paperclip"
version = "0.1.0"
edition = "2021"
publish = false

[dependencies]
heck = "=0.3.3"
regex = "=1.13.1"
semver = "1"
serde_json = "=1.0.154"
url = "=2.5.8"
uuid = "=1.29.1"
