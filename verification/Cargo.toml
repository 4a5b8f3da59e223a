[package]
name = "website"
version = "0.1.0"
edition = "2021"
publish = false

[dependencies]
argon2 = "0.5"
base64 = "*"
rand = "0.8"
url = "*"
serde = { version = "*", features = ["derive"] }
serde_urlencoded = "*"
toml = "*"
log = "*"
env_logger = "*"
futures-util = "*"
tokio = { version = "*", features = ["rt-multi-thread", "macros", "fs", "io-util", "sync"] }
actix-web = "4"
actix-session = { version = "*", features = ["cookie-session"] }
actix-files = "*"
