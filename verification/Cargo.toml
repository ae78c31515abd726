[package]
name = "drivers"
version = "0.1.0"
edition = "2021"
publish = false

[dependencies]
regex = "=1.13.1"
gpt = "=3.1.0"
uuid = "=1.29.0"
smallvec = "1"
