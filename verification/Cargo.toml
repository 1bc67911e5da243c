[package]
name = "entrypoint"
version = "0.1.0"
edition = "2021"
publish = false

[dependencies]
async-signal = "=0.2.14"
bollard = "0.21"
futures-util = "=0.3.34"
libc = "=0.2.191"
procfs = "=0.17.0"
thiserror = "=2.0.21"
tokio = { version = "=1.54.1", features = ["rt", "macros", "sync"] }
