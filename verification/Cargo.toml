[package]
name = "dapla"
version = "0.1.0"
edition = "2021"
publish = false

[dependencies]
wasmer = "=6.1.0"
actix-web = { version = "=4.18.1", default-features = false, features = ["macros", "compress-gzip"] }
actix-files = "=0.6.10"
env_logger = "=0.11.11"
log = "=0.4.34"
serde = { version = "=1.0.229", features = ["derive"] }
serde_json = "=1.0.154"
toml = "=1.1.8"
