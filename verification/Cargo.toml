[package]
name = "huobi_future"
version = "0.1.0"
edition = "2021"
publish = false

[dependencies]
ring = "*"
data-encoding = "*"
flate2 = "*"
serde_json = "*"
chrono = "*"
serde = { version = "*", features = ["derive"] }
tokio = { version = "*", features = ["rt", "macros", "net", "time", "io-util"] }
tokio-tungstenite = "*"
tungstenite = "*"
futures = "*"
url = "*"
reqwest = { version = "*", default-features = false, features = ["json"] }
