[package]
name = "metaedit"
version = "0.1.0"
edition = "2021"
publish = false

[dependencies]
editpe = "*"
image = { version = "0.25", default-features = false, features = ["png", "ico", "bmp", "jpeg", "gif", "tiff", "webp"] }
indexmap = "*"
plist = "*"
pyo3 = "*"
