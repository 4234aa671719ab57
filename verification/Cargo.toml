[package]
name = "sassi"
version = "0.1.0-beta.4"
edition = "2021"
publish = false

[dependencies]
im = "=15.1.0"
fastrand = "=2.5.0"
postcard = { version = "=1.1.3", features = ["alloc"] }
serde = { version = "=1.0.229", features = ["derive"] }
serde_json = "=1.0.154"
dashmap = "=6.2.1"
async-trait = "=0.1.92"
futures = "=0.3.34"
tokio = { version = "=1.54.1", features = ["sync", "time", "rt", "macros"] }
tracing = "=0.1.44"
thiserror = "=2.0.21"
inventory = "=0.3.25"
