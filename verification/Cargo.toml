[package]
name = "fskc"
version = "0.1.0"
edition = "2021"
publish = false

[dependencies]
sha2 = "0.10"
rand = "0.8"
rand_chacha = "0.3"
aes-gcm = "0.10"
chacha20 = "0.9"
