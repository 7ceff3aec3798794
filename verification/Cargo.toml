[package]
name = "svckit"
version = "0.1.0"
edition = "2021"
publish = false

[dependencies]
url = "=2.5.8"
chrono = "=0.4.45"
rand = "=0.8.8"
rand_hc = "=0.3.2"
actix-web = "=4.15.0"
redis = "=0.23.5"
maxminddb = "=0.24.0"
serde = { version = "=1.0.229", features = ["derive"] }
serde_json = "=1.0.151"
clap = { version = "=4.6.7", features = ["derive", "env"] }
log = { version = "=0.4.34", features = ["kv"] }
