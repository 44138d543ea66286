[package]
name = "office2pdf"
version = "0.1.0"
edition = "2021"
publish = false

[dependencies]
quick-xml = "=0.38.4"
zip = "=9.2.2"
docx-rs = "=0.4.22"
serde = { version = "=1.0.229", features = ["derive"] }
serde_json = "=1.0.154"
