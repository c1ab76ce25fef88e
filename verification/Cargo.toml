[package]
name = "mini_http"
version = "0.1.0"
edition = "2021"
publish = false

[dependencies]
jiff = "0.2"
regex = "1"
uuid = { version = "1", features = ["v4"] }
