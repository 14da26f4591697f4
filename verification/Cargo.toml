[package]
name = "clicks_core"
version = "0.1.0"
edition = "2021"
publish = false

[dependencies]
arc-swap = "*"
chrono = "*"
crossbeam-channel = "*"
hound = "*"
jack = "*"
local-ip-address = "*"
postcard = { version = "*", features = ["alloc"] }
rosc = "*"
serde = { version = "*", features = ["derive"] }
serde_json = "*"
