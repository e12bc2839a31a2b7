[package]
name = "midi2"
version = "0.1.0"
edition = "2021"
publish = false

[dependencies]
ux = "0.1"
syn = { version = "2", features = ["full"] }
quote = "1"
proc-macro2 = "1"
