[package]
name = "solar_rs"
version = "0.1.0"
edition = "2021"
publish = false

[dependencies]
anyhow = "*"
calamine = "*"
chrono = "*"
clap = { version = "*", features = ["derive"] }
csv = "*"
tabled = "*"
