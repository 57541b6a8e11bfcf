[package]
name = "s3cli"
version = "0.1.0"
edition = "2021"
publish = false

[dependencies]
chrono = "0.4"
sha2 = "0.10"
hmac = "0.12"
uuid = { version = "1", features = ["v4"] }
dirs = "5"
clap = { version = "4", features = ["derive"] }
tokio = { version = "1", features = ["rt-multi-thread"] }
reqwest = { version = "0.12", default-features = false, features = ["rustls-tls"] }
serde = { version = "1", features = ["derive"] }
toml = "0.8"
thiserror = "1"
async-trait = "0.1"
bytes = "1"
arboard = { version = "3", default-features = false }
