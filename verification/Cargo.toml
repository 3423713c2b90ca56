[package]
name = "routectl-router"
version = "0.1.0"
edition = "2021"
publish = false

[dependencies]
lru = "*"
serde_json = "*"
parking_lot = "*"
tracing = "*"
async-trait = "*"
futures = "*"
tokio = { version = "*", features = ["time", "rt", "macros", "sync"] }
