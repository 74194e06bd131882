[package]
name = "jcard"
version = "0.3.0"
edition = "2021"
publish = false

[dependencies]
quick-xml = "*"
serde = "1"
serde_json = "1"
