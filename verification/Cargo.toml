[package]
name = "devrouter"
version = "0.1.0"
edition = "2021"
publish = false

[dependencies]
httparse = "*"
axum = { version = "*", features = ["ws"] }
derive_more = { version = "*", features = ["display"] }
eyre = "*"
futures = "*"
futures-concurrency = "*"
reqwest = { version = "*", default-features = false, features = ["stream"] }
tap = "*"
thiserror = "*"
tokio = { version = "*", features = ["rt-multi-thread", "macros", "net", "io-util", "process", "time"] }
tokio-tungstenite = "*"
tracing = "*"
tracing-error = "*"
tracing-subscriber = "*"
url = "*"
