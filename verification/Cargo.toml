[package]
name = "valence"
version = "0.1.0"
edition = "2021"
publish = false

[dependencies]
flume = { version = "0.10", default-features = false }
log = "0.4"
rand = "0.8"
rayon = "1"
uuid = "1"
vek = "0.15"
