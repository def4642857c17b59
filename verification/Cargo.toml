[package]
name = "notes_emitter"
version = "0.1.0"
edition = "2021"
publish = false

[dependencies]
html2text = "*"
serde_json = "*"
