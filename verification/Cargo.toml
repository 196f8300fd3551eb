[package]
name = "wordpress_to_zola"
version = "0.1.0"
edition = "2021"
publish = false

[dependencies]
chrono = "*"
html2md = "*"
serde = { version = "*", features = ["derive"] }
serde-xml-rs = "*"
log = "*"
env_logger = "*"
