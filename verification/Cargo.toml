[package]
name = "pdf"
version = "0.1.0"
edition = "2021"
publish = false

[dependencies]
inflate = "*"
itertools = "*"
jpeg-decoder = { version = "*", default-features = false }
tempfile = "*"
byteorder = "*"
utf16-ext = "*"
