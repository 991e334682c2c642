[package]
name = "shadowquic"
version = "0.1.0"
edition = "2021"
publish = false

[dependencies]
bytes = "1"
tokio = { version = "1", features = ["rt", "rt-multi-thread", "macros", "net", "io-util", "sync", "time"] }
async-trait = "0.1"
thiserror = "2"
tracing = "0.1"
rand = "0.9"
rustc-hash = "2"
crossbeam = "0.8"
parking_lot = "0.12"
slab = "0.4"
socket2 = { version = "0.5", features = ["all"] }
libc = "0.2"
once_cell = "1"
anyhow = "1"
