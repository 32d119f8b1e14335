[package]
name = "rbroadlink"
version = "0.1.0"
edition = "2021"
publish = false

[dependencies]
aes = "0.7"
block-modes = "0.8"
rand = "0.8"
get_if_addrs = "0.5"
tokio = { version = "1", default-features = false, features = ["net", "time"] }
