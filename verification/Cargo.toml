[package]
name = "twenty_forty_eight"
version = "0.1.0"
edition = "2021"
publish = false

[dependencies]
rand = "0.8"
