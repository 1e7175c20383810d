[package]
name = "widgem"
version = "0.1.0"
edition = "2021"
publish = false

[dependencies]
accesskit = "*"
tiny-skia = "*"
fs-err = "*"
