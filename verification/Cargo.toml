[package]
name = "flexon"
version = "0.1.0"
edition = "2021"
publish = false

[dependencies]
memchr = "*"
simdutf8 = "*"
serde = "*"
serde_json = "*"

[dev-dependencies]
fast-float2 = "*"
