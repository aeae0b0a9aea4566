[package]
name = "trailing_closure"
version = "0.1.0"
edition = "2021"
publish = false

[dependencies]
proc-macro2 = "=1.0.107"
syn = { version = "2", features = ["full"] }
