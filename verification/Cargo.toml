[package]
name = "mgo_bridge"
version = "0.1.0"
edition = "2021"
publish = false

[dependencies]
tokio = { version = "1", default-features = false, features = ["rt", "sync", "time"] }
tracing = { version = "0.1", default-features = false, features = ["std"] }
