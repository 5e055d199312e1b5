[package]
name = "pulsive"
version = "0.1.0"
edition = "2021"
publish = false

[dependencies]
num_cpus = "=1.17.0"
serde = { version = "1", features = ["derive"] }
ron = "0.8"
serde_json = "1"
