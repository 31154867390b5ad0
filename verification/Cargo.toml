[package]
name = "jackfield"
version = "0.1.0"
edition = "2021"
publish = false

[dependencies]
uuid = { version = "=1.29.0", features = ["v4"] }
serde_json = "=1.0.154"
tokio = { version = "=1.54.1", features = ["sync", "rt", "rt-multi-thread", "macros", "time", "net"] }
pyo3 = "=0.22.6"
tokio-tungstenite = "*"
futures-util = { version = "=0.3.34", default-features = false, features = ["sink", "std"] }
prost = "*"
