[package]
name = "syncopate"
version = "0.1.0"
edition = "2021"
publish = false

[dependencies]
thiserror = "=2.0.21"
crossbeam = "=0.8.5"
clap = { version = "=4.6.7", features = ["derive"] }
tokio = { version = "=1.54.1", features = ["full"] }
nix = { version = "=0.31.3", features = ["resource", "time", "event"] }
libc = "=0.2.191"
serde = { version = "=1.0.229", features = ["derive"] }
serde_json = "=1.0.154"
csv = "=1.4.0"
statrs = "=0.19.1"
comfy-table = "=8.0.1"
