[package]
name = "date_time"
version = "0.1.0"
edition = "2021"
publish = false

[dependencies]
time = { version = "0.3", features = ["std"] }
reqwest = { version = "0.12", default-features = false, features = ["blocking", "rustls-tls"] }
pyo3 = "0.27"
serde = { version = "1", features = ["derive"] }
