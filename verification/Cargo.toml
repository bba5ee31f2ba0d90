[package]
name = "manyhow"
version = "0.1.0"
edition = "2021"
publish = false

[dependencies]
proc-macro2 = "1"
quote = "1"
syn = { version = "2", features = ["full"] }
darling_core = "*"
proc-macro-utils = "*"
