[package]
name = "to_delimited"
version = "0.1.0"
edition = "2021"
publish = false

[dependencies]
joinery = "=1.2.2"
