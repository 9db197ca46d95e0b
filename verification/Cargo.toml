[package]
name = "planet_mars"
version = "0.1.0"
edition = "2021"
publish = false

[dependencies]
anyhow = "=1.0.104"
chrono = "=0.4.45"
clap = { version = "=4.6.7", features = ["derive"] }
env_logger = "=0.11.11"
feed-rs = { version = "=2.4.0", features = ["sanitize"] }
log = "=0.4.34"
ron = "=0.8.1"
serde = { version = "=1.0.229", features = ["derive"] }
slug = "=0.1.6"
tera = "=1.20.1"
toml = "=0.8.23"
ureq = { version = "=3.5.0", features = ["native-tls"] }
url = "=2.5.8"
