[package]
name = "optionable"
version = "0.1.0"
edition = "2021"
publish = false

[dependencies]
darling = "=0.21.3"
proc-macro2 = "=1.0.107"
quote = "=1.0.47"
syn = { version = "=2.0.119", features = ["full", "extra-traits"] }

[dev-dependencies]
serde = "=1.0.229"
serde_json = "=1.0.154"
