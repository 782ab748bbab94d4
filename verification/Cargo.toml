[package]
name = "openwboard"
version = "0.1.0"
edition = "2021"
publish = false

[dependencies]
mdns-sd = "0.13"
futures-util = "0.3"
