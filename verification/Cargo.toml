[package]
name = "neon_core"
version = "0.1.0"
edition = "2021"
publish = false

[dependencies]
anyhow = "1"
byteorder = "1.4"
bytes = "1"
camino = "1.1"
futures = "0.3"
hyper = { version = "0.14", features = ["full"] }
md5 = "0.7"
prometheus = { version = "0.13", default-features = false }
rand = "0.8"
redis = { version = "0.24", features = ["tokio-comp"] }
serde = { version = "1", features = ["derive"] }
serde_json = "1"
thiserror = "1"
tokio = { version = "1", features = ["full"] }
tokio-util = "0.7"
tracing = "0.1"
url = "2"
urlencoding = "2.1"
uuid = { version = "1", features = ["v4", "serde"] }
