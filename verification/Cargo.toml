[package]
name = "hello_actix"
version = "0.1.0"
edition = "2021"
publish = false

[dependencies]
actix-web = "3.3.2"
diesel = { version = "1.4.7", features = ["mysql", "r2d2", "chrono"] }
dotenv = "0.15.0"
uuid = { version = "1", features = ["v4"] }
chrono = "0.4"
serde = { version = "1", features = ["derive"] }
serde_json = "1"
env_logger = "0.8"
log = "0.4"
envconfig = "0.10"
validator = "0.16"
