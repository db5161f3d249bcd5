[package]
name = "notify_bench"
version = "0.1.0"
edition = "2021"
publish = false

[dependencies]
anyhow = "*"
csv = "*"
futures-util = "*"
libc = "*"
port_scanner = "*"
tempfile = "*"
tokio = { version = "*", features = ["full"] }
tokio-postgres = "*"
whoami = "*"
