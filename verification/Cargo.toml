[package]
name = "deltakernel"
version = "0.1.0"
edition = "2021"
publish = false

[dependencies]
url = "2"
arrow-array = "*"
arrow-json = "*"
arrow-schema = "*"
arrow-select = "*"
