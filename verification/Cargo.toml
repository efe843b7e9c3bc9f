[package]
name = "text_editor"
version = "0.1.0"
edition = "2021"
publish = false

[dependencies]
crossterm = "=0.27.0"
docx-rs = { version = "=0.4.22", default-features = false }
rfd = "=0.14.1"
