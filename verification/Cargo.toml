[package]
name = "derusting"
version = "0.1.0"
edition = "2021"
publish = false

[dependencies]
uuid = { version = "1", default-features = false, features = ["v7", "serde", "std"] }
heapless = { version = "0.9", features = ["serde"] }
serde = { version = "1", default-features = false, features = ["derive"] }
postcard = { version = "1", features = ["alloc"] }
embassy-sync = "0.7"
embassy-time = { version = "0.5", features = ["tick-hz-1_000"] }
embassy-executor = "0.9"
embassy-time-driver = "0.2"
embassy-time-queue-utils = "0.3"
embedded-io = "0.6"
critical-section = "1"
portable-atomic = "1"
static_cell = "2"
thiserror = { version = "2", default-features = false }
getrandom = "0.3"
num_enum = { version = "0.7", default-features = false }
bitflags = "2"
const_format = "0.2"
cortex-m = "0.7"
picoserve = "*"
