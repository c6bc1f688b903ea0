[package]
name = "calbridge"
version = "0.1.0"
edition = "2021"
publish = false

[dependencies]
minidom = "*"
rand = "0.8"
chrono = "*"
url = "*"
serde = { version = "*", features = ["derive"] }
serde_json = "*"
reqwest = { version = "*", default-features = false, features = ["rustls-tls"] }
tokio = { version = "*", features = ["macros", "rt-multi-thread", "time", "fs"] }
matrix-sdk = { version = "0.7", default-features = false, features = ["sqlite", "rustls-tls"] }
anyhow = "*"
dirs = "*"
dotenv = "*"
