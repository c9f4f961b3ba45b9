[package]
name = "evp_mark"
version = "0.1.0"
edition = "2021"
publish = false

[dependencies]
blake3 = { version = "1", features = ["pure"] }
rand = "0.9"
rand_chacha = "0.9"
rustfft = "6"
hound = "3"
thiserror = "2"
