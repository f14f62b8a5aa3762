[package]
name = "sipdialog"
version = "0.1.0"
edition = "2021"
publish = false

[dependencies]
rsip = "*"
tokio = { version = "*", features = ["sync", "rt"] }
tokio-util = "*"
