[package]
name = "lock_time_ordinals"
version = "0.1.0"
edition = "2021"
publish = false

[dependencies]
bitcoin = { version = "0.32", features = ["serde"] }
redb = "2"
serde = { version = "1", features = ["derive"] }
