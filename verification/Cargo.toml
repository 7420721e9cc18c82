[package]
name = "solang_driver"
version = "0.1.0"
edition = "2021"
publish = false

[dependencies]
clap = "=3.2.25"
hex = "=0.4.3"
itertools = "=0.10.5"
num-traits = "=0.2.19"
serde = { version = "=1.0.229", features = ["derive"] }
serde_json = "=1.0.154"
