[package]
name = "facet_formats"
version = "0.1.0"
edition = "2021"
publish = false

[dependencies]
proc-macro2 = "=1.0.107"
quote = "=1.0.47"
kdl = "=6.7.1"
facet = { version = "=0.31.8", features = ["reflect"] }
facet-core = "=0.31.8"
facet-serialize = "=0.31.2"
log = "=0.4.35"
