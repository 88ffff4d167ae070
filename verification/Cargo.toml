[package]
name = "serde_this_or_that"
version = "0.1.0"
edition = "2021"
publish = false

[dependencies]
serde = "1"
