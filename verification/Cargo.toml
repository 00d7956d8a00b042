[package]
name = "usb_can"
version = "0.1.0"
edition = "2021"
publish = false

[dependencies]
embedded-can = "0.4"
embedded-io = "0.6"
embedded-io-async = "0.6"
tokio = { version = "1", features = ["sync", "time", "io-util", "rt", "macros"] }
tokio-serial = { version = "5", default-features = false }
log = "0.4"
zencan-common = "*"
