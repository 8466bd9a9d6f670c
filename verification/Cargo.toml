[package]
name = "home4paws"
version = "0.1.0"
edition = "2021"
publish = false

[dependencies]
image = "*"
reqwest = { version = "*", default-features = false, features = ["blocking", "json", "rustls-tls"] }
tokio = { version = "*", features = ["rt-multi-thread"] }
serde_json = "*"
dotenv = "*"
