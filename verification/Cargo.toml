[package]
name = "ctru_sys"
version = "0.1.0"
edition = "2021"
publish = false

[dependencies]
regex = "1"
rust-format = { version = "0.3", features = ["pretty_please"] }
bindgen = "*"
