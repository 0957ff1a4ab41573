[package]
name = "rsground"
version = "0.1.0"
edition = "2021"
publish = false

[dependencies]
actix-cors = "=0.7.2"
actix-web = { version = "=4.18.1", default-features = false, features = ["macros"] }
chrono = "=0.4.45"
cola-crdt = "=0.1.1"
dotenv = "=0.15.0"
env_logger = "=0.11.11"
futures = "=0.3.34"
jsonwebtoken = "=9.3.1"
log = "=0.4.35"
lsp-types = "0.97"
operational-transform = "=0.6.1"
rand = "=0.8.8"
reqwest = { version = "=0.12.28", default-features = false, features = ["json"] }
serde = { version = "=1.0.229", features = ["derive"] }
serde_json = "=1.0.154"
thiserror = "=1.0.69"
tokio = { version = "=1.54.1", features = ["full"] }
toml = "=0.8.23"
urlencoding = "=2.1.3"
uuid = { version = "=1.29.0", features = ["v4", "serde"] }
