[package]
name = "concurrency"
version = "0.1.0"
edition = "2021"
publish = false

[dependencies]
dashmap = "=6.2.1"
oneshot = { version = "=0.2.1", features = ["std"] }
rand = "=0.10.3"
