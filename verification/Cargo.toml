[package]
name = "ch32-util"
version = "0.1.0"
edition = "2021"
publish = false

[dependencies]
ch32-hal = "*"
embassy-executor = "*"
embassy-futures = "*"
embassy-sync = "*"
embassy-time = "*"
heapless = "*"
portable-atomic = "*"
qingke-rt = "*"
ufmt = "*"

[dev-dependencies]
critical-section = { version = "1", features = ["std"] }
