[package]
name = "pokablocks"
version = "0.1.0"
edition = "2021"
publish = false

[dependencies]
genevo = "0.7"
gif = "0.13"
num-bigint = { version = "0.4", features = ["rand"] }
rand = "0.8"
rand_xoshiro = "0.6"
serde = { version = "1", features = ["derive"] }
serde_json = "1"
