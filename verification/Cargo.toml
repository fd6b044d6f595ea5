[package]
name = "streamcatcher"
version = "0.1.0"
edition = "2021"
publish = false

[dependencies]
parking_lot = "=0.12.5"
futures = "=0.3.34"
tokio = { version = "1", features = ["rt"] }
async-std = "1"
smol = "2"
async-compat = "0.2"
