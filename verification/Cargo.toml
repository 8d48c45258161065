[package]
name = "object_store_get"
version = "0.1.0"
edition = "2021"
publish = false

[dependencies]
http = "1"
bytes = "1"
async-trait = "0.1"
futures-util = "0.3"
futures-channel = "0.3"
http-body-util = "0.1"
thiserror = "2"
tokio = { version = "1", features = ["time"] }
tracing = "0.1"
rand = "0.10"
web-time = "1"
js-sys = "0.3"
wasm-bindgen-futures = "0.4"
gloo-timers = { version = "*", features = ["futures"] }
