[package]
name = "tokio_way_sock"
version = "0.1.0"
edition = "2021"
publish = false

[dependencies]
anyhow = "1"
libc = "0.2"
sendfd = { version = "0.4", features = ["tokio"] }
tokio = { version = "1", features = ["macros", "net", "rt", "sync"] }
tokio-util = "0.7"
tracing = "0.1"
