[package]
name = "job_queue"
version = "0.1.0"
edition = "2021"
publish = false

[dependencies]
actix-rt = "=2.15.0"
actix-web = "=4.18.1"
apalis = { version = "=0.3.6", features = ["redis", "extensions"] }
apalis-core = "=0.3.6"
env_logger = "=0.11.11"
futures = "=0.3.34"
serde = { version = "=1.0.229", features = ["derive"] }
