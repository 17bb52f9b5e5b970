[package]
name = "nvme_exporter"
version = "0.1.0"
edition = "2021"
publish = false

[dependencies]
axum = "*"
clap = { version = "*", features = ["derive", "env"] }
glob = "*"
libc = "*"
prometheus = { version = "*", default-features = false }
tokio = { version = "*", features = ["macros", "net", "rt-multi-thread", "signal"] }
tracing = "*"
tracing-subscriber = { version = "*", features = ["env-filter", "fmt", "json"] }
