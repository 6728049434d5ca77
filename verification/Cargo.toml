[package]
name = "sve"
version = "0.1.0"
edition = "2021"
publish = false

[dependencies]
dioxus = "0.6"
rfd = "0.15"
tempfile = "3"
tokio = { version = "1", features = ["rt"] }
