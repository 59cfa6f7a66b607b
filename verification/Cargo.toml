[package]
name = "blogpost_ffi"
version = "0.1.0"
edition = "2021"
publish = false

[dependencies]
arrow = { version = "=45.0.0", default-features = false, features = ["pyarrow"] }
# arrow 45 does not compile against chrono 0.4.40 and later.
chrono = { version = "=0.4.38", default-features = false }
eyre = "=0.6.14"
opentelemetry = "=0.20.0"
opentelemetry-jaeger = "=0.19.0"
pyo3 = { version = "=0.19.2", features = ["extension-module", "eyre"] }
