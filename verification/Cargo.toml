[package]
name = "miarh"
version = "0.1.0"
edition = "2021"
publish = false

[dependencies]
async-lock = "=3.4.2"
async-native-tls = "=0.6.0"
async-net = "=2.0.0"
bincode = "=1.3.3"
brotli = { version = "=9.0.0", features = ["portable-float"] }
cookie = "=0.18.2"
futures-lite = "=2.6.1"
libc = "=0.2.191"
memchr = "=2.8.3"
native-tls = "=0.2.18"
once_cell = "=1.21.4"
qpidfile = "=0.9.2"
serde = { version = "=1.0.229", features = ["derive"] }
toml = "=1.1.8"
