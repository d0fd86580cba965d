[package]
name = "linktest"
version = "0.1.0"
edition = "2021"
publish = false

[dependencies]
chrono = "=0.4.45"
clap = "=3.2.25"
futures = "=0.3.34"
lazy_static = "=1.5.1"
serialport = { version = "=4.10.1", default-features = false }
tokio = { version = "=1.53.2", features = ["macros", "rt-multi-thread"] }
tokio-modbus = { version = "=0.5.4", features = ["tcp-server-unstable"] }
