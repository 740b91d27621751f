[package]
name = "comet"
version = "0.1.0"
edition = "2021"
publish = false

[dependencies]
base64 = "*"
chrono = "*"
clap = { version = "*", features = ["derive"] }
derive-getters = "*"
env_logger = "*"
futures-util = "*"
lazy_static = "*"
log = "*"
rand = "*"
reqwest = { version = "*", default-features = false, features = ["rustls-tls", "json"] }
serde = { version = "*", features = ["derive"] }
serde_ini = "*"
serde_json = "*"
sqlx = { version = "*", default-features = false, features = ["runtime-tokio", "tls-rustls", "sqlite"] }
sys-locale = "*"
tokio = { version = "*", features = ["full"] }
tokio-tungstenite = { version = "*", features = ["rustls-tls-webpki-roots"] }
tokio-util = "*"
toml = "*"
