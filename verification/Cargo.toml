[package]
name = "top_map"
version = "0.1.0"
edition = "2021"
publish = false

[dependencies]
fixed-vec-deque = "=0.1.11"

[dev-dependencies]
quickcheck = { version = "=1.1.0", default-features = false }
