[package]
name = "scheduler"
version = "0.1.0"
edition = "2021"
publish = false

[dependencies]
ctrlc = "3"
libc = "0.2"

[dev-dependencies]
chrono = { version = "0.4", default-features = false, features = ["std"] }
rand = "0.8"
