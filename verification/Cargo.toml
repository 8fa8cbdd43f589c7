[package]
name = "seven_seg"
version = "0.1.0"
edition = "2021"
publish = false

[dependencies]
cattocol = "*"
num = "*"
