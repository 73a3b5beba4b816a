[package]
name = "cavaii"
version = "0.1.0"
edition = "2021"
publish = false

[dependencies]
tracing = "0.1"
gtk4 = { version = "*", features = ["v4_14"] }
gtk4-layer-shell = "*"
