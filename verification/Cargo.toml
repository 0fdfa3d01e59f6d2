[package]
name = "tus_handlers"
version = "0.1.0"
edition = "2021"
publish = false

[dependencies]
base64 = "0.22"
chrono = "0.4"
futures-util = "0.3"
salvo_core = { version = "*", default-features = false }
tracing = "0.1"
