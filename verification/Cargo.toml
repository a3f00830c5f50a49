[package]
name = "device_simulator"
version = "0.1.0"
edition = "2021"
publish = false

[dependencies]
anyhow = "*"
base64 = "0.13"
futures = "*"
gloo-storage = "*"
gloo-timers = { version = "*", features = ["futures"] }
gloo-utils = "*"
humantime = "*"
humantime-serde = "*"
itertools = "*"
js-sys = "*"
log = "*"
multimap = "*"
num-traits = "*"
patternfly-yew = "*"
serde = { version = "*", features = ["derive"] }
serde_json = "*"
serde_yaml = "*"
strum = { version = "*", features = ["derive"] }
url = "*"
uuid = { version = "*", features = ["v4"] }
wasm-bindgen = "*"
wasm-bindgen-futures = "*"
web-sys = { version = "*", features = ["DeviceOrientationEvent", "Location", "Window"] }
yew = { version = "*", features = ["csr"] }
yew-router = "*"
