[package]
name = "mini_lust"
version = "0.1.0"
edition = "2021"
publish = false

[dependencies]
bytes = "=1.12.1"
byteorder = "=1.5.0"
heck = "=0.3.3"
proc-macro2 = { version = "=1.0.107", default-features = false }
tokio = { version = "=1.54.1", features = ["net", "rt", "rt-multi-thread", "macros", "io-util"] }
tokio-util = { version = "=0.6.10", features = ["codec"] }
tokio-stream = { version = "=0.1.19", features = ["net"] }
tower = { version = "=0.4.13", features = ["make", "buffer", "util", "limit"] }
futures = "=0.3.34"
async-trait = "=0.1.92"
log = "=0.4.34"
thiserror = "=1.0.69"
pin-project = "=1.1.13"
float-cmp = "=0.9.0"
