[package]
name = "elliptic_arc"
version = "0.1.0"
edition = "2021"
publish = false

[dependencies]
euclid = { version = "=0.19.9", features = ["serde"] }
num-traits = "=0.2.19"
serde = { version = "1", features = ["derive"] }
