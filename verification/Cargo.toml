[package]
name = "myos"
version = "0.1.0"
edition = "2021"
publish = false

[dependencies]
crossbeam-queue = "0.3"
conquer-once = "0.4"
spin = "0.9"
lazy_static = "1.4"
pc-keyboard = "0.7"
futures-util = { version = "0.3", default-features = false, features = ["alloc"] }
