[package]
name = "svg2pdf"
version = "0.1.0"
edition = "2021"
publish = false

[dependencies]
usvg = "*"
krilla = "*"
krilla-svg = "*"
pdf-writer = "*"
fontdb = "*"
flate2 = "*"
