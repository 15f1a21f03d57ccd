[package]
name = "cache_proxy"
version = "0.1.0"
edition = "2021"
publish = false

[dependencies]
actix-web = "4"
awc = { version = "3", features = ["rustls"] }
chrono = "0.4"
env_logger = "*"
futures-util = "0.3"
log = "0.4"
r2d2 = "0.8"
r2d2_sqlite = "*"
rusqlite = "*"
rustls = "0.20"
serde_json = "1"
url = "2"
webpki-roots = "0.22"

[dev-dependencies]
lazy-regex = "*"
