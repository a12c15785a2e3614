[package]
name = "golem_rust"
version = "0.1.0"
edition = "2021"
publish = false

[dependencies]
heck = "=0.5.0"
syn = { version = "=2.0.119", features = ["full", "extra-traits"] }
proc-macro2 = "=1.0.107"
quote = "=1.0.47"
darling = "=0.20.11"
linkme = "=0.3.37"
uuid = "=1.29.1"
