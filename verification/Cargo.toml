[package]
name = "http_proxy"
version = "0.1.0"
edition = "2021"
publish = false

[dependencies]
mio = "0.6"
pool = "0.1"
rand = "0.3"
time = "0.1"
uuid = { version = "0.4", features = ["v4"] }
