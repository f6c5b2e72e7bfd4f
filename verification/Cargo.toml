[package]
name = "typst_highlight"
version = "0.1.0"
edition = "2021"
publish = false

[dependencies]
typst = "=0.15.1"
typst-ide = "=0.15.1"
typst-layout = "=0.15.1"
typst-svg = "=0.15.1"
typst-html = "=0.15.1"
mitex = "=0.2.4"
unicode_names2 = "=4.0.0"
unicode-math-class = "=0.1.0"
chrono = "=0.4.45"
serde = { version = "=1.0.229", features = ["derive"] }
serde_json = "=1.0.151"
