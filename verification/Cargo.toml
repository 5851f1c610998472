[package]
name = "large_blobs"
version = "0.1.0"
edition = "2021"
publish = false

[dependencies]
byteorder = "1"
hmac = "0.12"
sha2 = "0.10"
