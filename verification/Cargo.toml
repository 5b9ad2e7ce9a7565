[package]
name = "mushin"
version = "0.1.0"
edition = "2021"
publish = false

[dependencies]
arrayfire = "3.8"
rand = "0.8"
syn = { version = "1", features = ["full"] }
quote = "1"
proc-macro2 = "1"
