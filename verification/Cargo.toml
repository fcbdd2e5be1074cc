[package]
name = "ohttp_client"
version = "0.1.0"
edition = "2021"
publish = false

[dependencies]
ohttp = "=0.8.0"
bhttp = "=0.8.0"
url = "=2.5.8"
getrandom = "=0.3.4"
thiserror = "=2.0.21"
bitreq = { version = "=0.4.3", features = ["async", "proxy"] }
wasm-bindgen = "=0.2.130"
