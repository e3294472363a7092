[package]
name = "solrcopy"
version = "0.1.0"
edition = "2021"
publish = false

[dependencies]
crossbeam-channel = "0.5"
crossbeam-utils = "0.8"
log = "0.4"
regex = "1"
ureq = { version = "1.5", default-features = false }
