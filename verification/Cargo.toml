[package]
name = "mjpeg_stream"
version = "0.1.0"
edition = "2021"
publish = false

[dependencies]
anyhow = "*"
async-io-mini = "*"
embassy-time = "*"
esp-idf-hal = "*"
esp-idf-svc = "*"
futures-executor = "*"
futures-lite = "*"
futures-util = "*"
log = "*"
