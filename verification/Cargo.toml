[package]
name = "memory_admission"
version = "0.1.7"
edition = "2021"
publish = false

[dependencies]
sysinfo = { version = "=0.38.4", default-features = false, features = ["system"] }
tokio = { version = "=1.54.1", features = ["sync", "time", "macros", "rt", "rt-multi-thread"] }
tracing = "=0.1.44"
