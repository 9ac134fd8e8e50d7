[package]
name = "co3_derive"
version = "0.1.0"
edition = "2021"
publish = false

[dependencies]
syn = { version = "=3.0.9", features = ["full", "parsing", "printing", "visit", "visit-mut", "extra-traits"] }
proc-macro2 = "=1.0.107"
quote = "=1.0.47"
darling = "=0.24.1"
manyhow = "=0.14.1"
strum = { version = "=0.28.0", features = ["derive"] }
