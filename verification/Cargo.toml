[package]
name = "virtual_piano"
version = "0.1.0"
edition = "2021"

[dependencies]
opencv = "*"
