[package]
name = "repro_harness"
version = "0.1.0"
edition = "2021"
publish = false

[dependencies]
chrono = "*"
csv = "*"
process_control = "*"
serde = { version = "*", features = ["derive"] }
