[package]
name = "actix_send"
version = "0.1.0"
edition = "2021"
publish = false

[dependencies]
async-channel = "*"
futures-channel = "*"
futures-util = "*"
actix-rt = "*"

[dev-dependencies]
futures = "*"
