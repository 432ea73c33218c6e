[package]
name = "dstest"
version = "0.1.0"
edition = "2021"
publish = false

[dependencies]
rand = "0.8"
serde_json = "1"
serde_yaml = "0.9"
mlua = { version = "0.10", features = ["luajit", "vendored", "async", "send"] }
bollard = "0.19"
futures-util = "0.3"
tokio = { version = "1", features = ["rt-multi-thread", "macros", "time", "net", "sync"] }
reqwest = { version = "0.12", default-features = false, features = ["rustls-tls"] }
sqlx = { version = "0.8", default-features = false, features = ["postgres", "runtime-tokio"] }
tracing = "0.1"
tracing-subscriber = "0.3"
