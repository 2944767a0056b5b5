[package]
name = "textframe"
version = "0.1.0"
edition = "2021"
publish = false

[dependencies]
crossterm = "*"
resolve-path = "*"
term_size = "*"
