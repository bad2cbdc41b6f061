[package]
name = "ii_proj_rest_server"
version = "0.1.0"
edition = "2021"
publish = false

[dependencies]
regex = "1"
zstd = "0.13"
uuid = { version = "1", features = ["v4"] }
serde = { version = "1", features = ["derive"] }
serde_json = "1"
tokio = { version = "1", features = ["full"] }
csv-async = { version = "1", features = ["tokio"] }
actix-web = "4"
log = "0.4"
env_logger = "0.11"
