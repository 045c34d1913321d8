[package]
name = "kernel"
version = "0.1.0"
edition = "2021"
publish = false

[dependencies]
crossbeam-queue = { version = "0.2", default-features = false, features = ["alloc"] }
font8x8 = { version = "=0.3.1", default-features = false }
ringbuffer = "=0.12.0"
x86_64 = { version = "=0.15.5", default-features = false, features = ["instructions"] }
