[package]
name = "wishlist"
version = "0.1.0"
edition = "2021"
publish = false

[dependencies]
anyhow = "*"
async-channel = "*"
base64 = "*"
gloo-timers = { version = "*", features = ["futures"] }
idb = "*"
kdl = "*"
log = "*"
nanoid = "*"
reqwest = { version = "*", default-features = false, features = ["json"] }
serde = { version = "*", features = ["derive"] }
serde-wasm-bindgen = "*"
serde_json = "*"
thiserror = "*"
urlencoding = "*"
wasm-bindgen = "*"
wasm-bindgen-futures = "*"
