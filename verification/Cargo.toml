[package]
name = "brewster"
version = "0.1.0"
edition = "2021"
publish = false

[dependencies]
axum = "=0.8.9"
critical-section = "1"
embassy-net = { version = "=0.9.1", features = ["dhcpv4", "dhcpv4-hostname", "medium-ethernet", "multicast", "proto-ipv4", "proto-ipv6", "tcp", "udp"] }
embassy-time = "=0.5.1"
embedded-hal = "=1.0.0"
embedded-storage = "=0.3.2"
esp-storage = { version = "=0.10.0", default-features = false, features = ["emulation"] }
heapless = "=0.8.0"
pid = "=4.0.0"
reqwest = { version = "=0.13.5", default-features = false, features = ["json"] }
serde = { version = "1", features = ["derive"] }
serde_json = "1"
static_cell = "2"
tokio = { version = "1", features = ["full"] }
tokio-stream = { version = "0.1", features = ["sync"] }
tower = "=0.5.3"
tower-http = { version = "=0.7.1", features = ["cors", "fs", "set-header"] }
tracing = "0.1"
tracing-subscriber = { version = "0.3", features = ["env-filter"] }
