[package]
name = "sysmon"
version = "0.1.0"
edition = "2021"
publish = false

[dependencies]
bounded-vec-deque = "=0.1.1"
log = "=0.4.35"
serde = { version = "=1.0.229", features = ["derive"] }
sysinfo = "=0.37.2"
