[package]
name = "index_enclave"
version = "0.1.0"
edition = "2021"
publish = false

[dependencies]
bytes = "=1.12.1"
futures = "=0.3.34"
http = "=0.2.12"
httparse = "=1.10.1"
httpdate = "=1.0.3"
lazy_static = "=1.5.1"
log = "=0.4.34"
mio = "=0.6.23"
mio_httpc = "0.8"
net2 = "=0.2.39"
rustls = "=0.20.9"
rustls-pemfile = "=1.0.4"
serde = { version = "=1.0.229", features = ["derive"] }
serde_json = "=1.0.154"
tungstenite = { version = "=0.17.3", default-features = false }
