[package]
name = "payx"
version = "0.1.0"
edition = "2021"
publish = false

[dependencies]
anyhow = "*"
csv = "*"
rust_decimal = "*"
serde = { version = "*", features = ["derive"] }
thiserror = "*"
