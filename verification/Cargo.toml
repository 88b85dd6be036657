[package]
name = "rest_api"
version = "0.1.0"
edition = "2021"
publish = false

[dependencies]
actix-cors = "0.7"
actix-rt = "2"
actix-web = { version = "4", default-features = false, features = ["macros"] }
futures = "=0.3.34"
hex = "=0.4.3"
log = "=0.4.35"
serde = { version = "=1.0.229", features = ["derive"] }
serde_json = "=1.0.154"
tokio = { version = "1", features = ["rt", "time", "sync", "macros"] }
web3 = { version = "=0.10.0", default-features = false }
