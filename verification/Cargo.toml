[package]
name = "gsm_cap"
version = "1.1.0"
edition = "2021"
publish = false

[dependencies]
rasn = "=0.30.0"
thiserror = "=2.0.21"
pyo3 = "=0.29.3"

[dev-dependencies]
inap = "=1.1.0"
