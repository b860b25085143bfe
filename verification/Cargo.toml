[package]
name = "fetch_bridge"
version = "0.1.0"
edition = "2021"
publish = false

[dependencies]
bytes = "=1.12.1"
futures-util = "=0.3.34"
http = "=1.5.0"
http-body = "=1.1.0"
http-body-util = "=0.1.5"
js-sys = "*"
tonic = { version = "=0.14.6", default-features = false }
wasm-streams = "*"
wstd = "=0.6.8"
