[package]
name = "assembler"
version = "0.1.0"
edition = "2021"
publish = false

[dependencies]
clap = { version = "3", default-features = false, features = ["std"] }
