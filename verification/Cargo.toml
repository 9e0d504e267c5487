[package]
name = "superperm"
version = "0.1.0"
edition = "2021"
publish = false

[dependencies]
bit-set = "*"
bucket_queue = "*"
lehmer = "*"
