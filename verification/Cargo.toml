[package]
name = "parquet_forward"
version = "0.1.0"
edition = "2021"
publish = false

[dependencies]
arrow = { version = "=59.3.2", default-features = false }
arrow-schema = "=59.3.2"
bytes = "=1.12.1"
futures = "=0.3.34"
object_store = { version = "=0.13.2", default-features = false }
parking_lot = "=0.12.5"
parquet = { version = "=59.3.2", default-features = false, features = ["arrow", "async", "object_store"] }
tokio = { version = "=1.54.1", features = ["rt", "sync"] }

[dev-dependencies]
tempfile = "=3.27.0"
