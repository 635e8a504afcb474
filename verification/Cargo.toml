[package]
name = "turbopack_support"
version = "0.1.0"
edition = "2021"
publish = false

[dependencies]
regex = "=1.13.1"
urlencoding = "=2.1.3"
base64 = "=0.22.1"
serde_json = "=1.0.154"
url = "=2.5.8"
notify-types = "=2.2.0"
notify = "=8.2.1"
indexmap = "2"
rustc-hash = "2"
