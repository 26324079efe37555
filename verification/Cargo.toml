[package]
name = "nar_gateway"
version = "0.1.0"
edition = "2021"
publish = false

[dependencies]
anyhow = "*"
async-compression = { version = "*", features = ["tokio", "bzip2", "gzip", "xz", "zstd"] }
axum = "*"
clap = { version = "*", features = ["derive"] }
futures = "*"
nix-compat = "=0.0.0-pre"
reqwest = { version = "*", default-features = false, features = ["stream"] }
tokio = { version = "*", features = ["full"] }
tokio-stream = "*"
tokio-util = { version = "*", features = ["io"] }
tracing = "*"
tracing-subscriber = { version = "*", features = ["env-filter", "fmt"] }
