[package]
name = "poll_engine"
version = "0.1.0"
edition = "2021"
publish = false

[dependencies]
chrono = "*"
serde = { version = "*", features = ["derive"] }
serde_json = "*"
actix-web = "*"
actix-rt = "*"
futures = "*"
dotenv = "*"
env_logger = "*"
num_cpus = "*"
