[package]
name = "fixed_bump"
version = "0.1.0"
edition = "2021"
publish = false

[dependencies]
allocator-fallback = "*"
