[package]
name = "netpipe"
version = "0.1.0"
edition = "2021"
publish = false

[dependencies]
tokio = { version = "1", default-features = false, features = ["rt", "net", "io-util", "sync", "macros"] }
async-trait = "0.1"
