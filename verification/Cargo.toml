[package]
name = "xcp"
version = "0.1.0"
edition = "2021"
publish = false

[dependencies]
crossbeam-channel = "0.5"
libfs = "*"
log = "0.4"
simplelog = "*"
clap = { version = "4", features = ["derive"] }
glob = "0.3"
