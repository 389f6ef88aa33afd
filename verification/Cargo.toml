[package]
name = "robots"
version = "0.1.0"
edition = "2021"
publish = false

[dependencies]
postcard = { version = "=1.1.3", features = ["alloc", "experimental-derive"] }
heapless = "=0.7.17"
cobs = { version = "=0.3.0", default-features = false }
bytes = "=1.12.1"
smart-leds = "=0.3.0"
serde = { version = "=1.0.229", features = ["derive"] }
serde_json = "=1.0.154"
thiserror = "=1.0.69"
tokio = { version = "=1.54.1", features = ["full"] }
tokio-util = { version = "=0.7.20", features = ["codec"] }
futures = "=0.3.34"
broadcaster = "=1.0.0"
lazy_static = "=1.5.1"
glob = "=0.3.4"
tokio-serial = { version = "=5.5.0", default-features = false }
