[package]
name = "cove"
version = "0.1.0"
edition = "2021"
publish = false

[dependencies]
base64 = "=0.22.1"
calamine = "=0.37.0"
dirs = "=5.0.1"
docx-lite = "=0.2.0"
html2md = "=0.2.17"
libc = "=0.2.191"
notify = "=6.1.1"
pdf-extract = "=0.12.1"
quick-xml = "=0.36.2"
reqwest = { version = "=0.12.28", default-features = false, features = ["blocking", "rustls-tls"] }
rquickjs = "=0.14.0"
serde = { version = "=1.0.229", features = ["derive"] }
serde_json = "=1.0.154"
zip = "=0.6.6"

[dev-dependencies]
regex = "=1.13.1"
