[package]
name = "vulkan_sync"
version = "0.1.0"
edition = "2021"
publish = false

[dependencies]
arrayvec = "0.7"
ash = { version = "=0.38.0", default-features = false, features = ["std", "debug"] }
parking_lot = "=0.12.5"
log = "=0.4.34"
profiling = { version = "=1.0.18", default-features = false }
gpu-alloc = "=0.6.2"
gpu-descriptor = "=0.3.2"
bitflags = "=2.13.2"
