[package]
name = "metrics_aggregator"
version = "0.1.0"
edition = "2021"
publish = false

[dependencies]
futures = "0.3"
mongodb = "2.8"
pyo3 = "0.21"
pyo3-asyncio-0-21 = { version = "0.21", features = ["tokio-runtime"] }
serde = { version = "1", features = ["derive"] }
