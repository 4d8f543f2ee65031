[package]
name = "emergency_backup"
version = "0.1.0"
edition = "2021"
publish = false

[dependencies]
async-recursion = "=1.2.0"
chrono = { version = "=0.4.45", default-features = false, features = ["clock"] }
emath = "=0.37.0"
libc = "=0.2.191"
notify = { version = "6", default-features = false }
serde = { version = "=1.0.229", features = ["derive"] }
serde_yaml = "=0.9.34"
sysinfo = { version = "0.31", default-features = false, features = ["system"] }
tokio = { version = "=1.54.1", features = ["rt-multi-thread", "fs", "io-util", "sync", "macros"] }
x11 = { version = "2", features = ["xlib"] }
