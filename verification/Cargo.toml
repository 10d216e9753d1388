[package]
name = "jute_kernel"
version = "0.1.0"
edition = "2021"
publish = false

[dependencies]
hmac = "0.12"
sha2 = "0.10"
serde = { version = "1", features = ["derive"] }
serde_json = "1"
thiserror = "1"
zeromq = { version = "0.4", default-features = false, features = ["tokio-runtime", "tcp-transport"] }
tokio = { version = "1", features = ["rt", "time", "sync", "macros"] }
