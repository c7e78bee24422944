[package]
name = "riichienv"
version = "0.1.0"
edition = "2021"
publish = false

[dependencies]
pyo3 = "*"
numpy = "*"

[dev-dependencies]
serde_json = "*"
