[package]
name = "runtime_pool"
version = "0.1.0"
edition = "2021"
publish = false

[dependencies]
anyhow = "1"
crossbeam = "0.8"
futures = "0.3"
tokio = { version = "1", default-features = false, features = ["rt"] }
