[package]
name = "pointproofs"
version = "0.1.0"
edition = "2021"
publish = false

[dependencies]
pairing-plus = "=0.19.0"
ff-zeroize = "=0.6.3"
rand = "=0.6.5"
zeroize = "1"
sha2 = "0.8"
bigint = "4"
