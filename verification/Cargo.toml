[package]
name = "msg_reader"
version = "0.1.0"
edition = "2021"
publish = false

[dependencies]
anyhow = "1"
cfb = "0.16"
chrono = "0.4"
compressed-rtf = "*"
encoding_rs = "0.8"
