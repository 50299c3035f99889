[package]
name = "cinode_extract"
version = "0.1.0"
edition = "2021"
publish = false

[dependencies]
base64 = "0.13"
dotenv = "0.15"
md5 = "0.7"
regex = "1"
reqwest = { version = "0.11", features = ["json"] }
serde = { version = "1", features = ["derive"] }
serde_json = "1"
tokio = { version = "1", features = ["full"] }
uuid = { version = "0.8", features = ["v4"] }
