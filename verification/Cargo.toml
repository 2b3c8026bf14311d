[package]
name = "artifact_server"
version = "0.1.0"
edition = "2021"
publish = false

[dependencies]
hyper = { version = "0.14", features = ["server", "http1"] }
tokio = { version = "1", features = ["macros", "net", "rt-multi-thread"] }

[dev-dependencies]
serde_json = "1"
