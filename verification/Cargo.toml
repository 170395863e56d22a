[package]
name = "thetadatadx"
version = "0.1.0"
edition = "2021"
publish = false

[dependencies]
rand = "*"
thiserror = "*"
tracing = "*"
metrics = "*"
metrics-exporter-prometheus = "*"
rustls = "*"
socket2 = "*"
arrow-array = "*"
arrow-schema = "*"
disruptor = "*"
