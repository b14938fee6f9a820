[package]
name = "bounty"
version = "0.1.0"
edition = "2021"
publish = false

[dependencies]
infer = "*"
percent-encoding = "2"
walkdir = "2"
