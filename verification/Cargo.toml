[package]
name = "state_manager"
version = "0.1.0"
edition = "2021"
publish = false

[dependencies]
crossbeam-channel = "0.5"
parking_lot = "0.12"
prometheus = "0.13"
prost = "0.11"
scoped_threadpool = "0.1"
serde = { version = "1", features = ["derive"] }
