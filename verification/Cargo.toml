[package]
name = "pg_stat_sysinfo"
version = "0.1.0"
edition = "2021"
publish = false

[dependencies]
anyhow = "1"
bytesize = "1"
heapless = "0.7"
lazy_static = "1"
nvml-wrapper = "*"
parking_lot = "0.12"
pgrx = "0.9"
serde = { version = "1", features = ["derive"] }
serde_bare = "0.5"
serde_json = "1"
sysinfo = "0.29"
time = { version = "0.3", features = ["serde"] }
