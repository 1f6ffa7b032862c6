[package]
name = "gamebox"
version = "0.1.0"
edition = "2021"
publish = false

[dependencies]
flate2 = "*"
tar = "*"
zip = { version = "*", default-features = false, features = ["deflate"] }
serde_json = "*"
uuid = { version = "*", features = ["v4"] }
pelite = "*"
tempfile = "*"
reqwest = { version = "*", default-features = false, features = ["rustls-tls"] }
tokio = { version = "*", features = ["rt-multi-thread", "macros"] }
futures-util = "*"
