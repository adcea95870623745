[package]
name = "rustygoblin"
version = "0.1.0"
edition = "2021"
publish = false

[dependencies]
md5 = "=0.7.0"
pnet = "=0.35.0"
zmq = "0.10"
serde = { version = "=1.0.229", features = ["derive"] }
serde_json = "=1.0.154"
getopts = "=0.2.24"
slog = "=2.8.2"
slog-term = "=2.9.2"
pcap-file = "=1.1.1"
