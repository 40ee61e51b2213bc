[package]
name = "euphonica"
version = "0.1.0"
edition = "2021"
publish = false

[dependencies]
aho-corasick = "=1.1.5"
lru = "=0.19.0"
nohash-hasher = "=0.2.0"
rand = "=0.9.5"
chrono = "=0.4.45"
time = { version = "=0.3.55", features = ["formatting", "parsing", "local-offset"] }
uuid = { version = "=1.29.0", features = ["v4"] }
serde = { version = "=1.0.229", features = ["derive"] }
serde_json = "=1.0.154"
async-channel = "=2.5.0"
oneshot = { version = "=0.2.1", features = ["async", "std"] }
once_cell = "=1.21.4"
tokio = { version = "=1.54.1", features = ["rt", "rt-multi-thread"] }
futures = "=0.3.34"
mpris-server = "=0.11.0"
resolve-path = "=0.1.0"
open = "=5.4.5"
image = { version = "=0.25.10", default-features = false, features = ["png", "jpeg", "webp"] }
libblur = "=0.24.0"
auto-palette = "=0.9.2"
