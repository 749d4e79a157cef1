[package]
name = "arse"
version = "0.1.0"
edition = "2021"
publish = false

[dependencies]
glob = "=0.3.4"
pulldown-cmark = "=0.13.4"
tera = "=1.20.1"
rss = "=2.1.2"
chrono = "=0.4.45"
rand = "=0.10.3"
argon2 = "=0.6.0"
serde = { version = "=1.0.229", features = ["derive"] }
toml = "=1.1.7"
log = "=0.4.34"
simplelog = "=0.12.2"
anyhow = "=1.0.104"
clap = "=4.6.7"
tokio = { version = "=1.53.2", features = ["full"] }
axum = "=0.8.9"
data-encoding = "=2.11.1"

[dev-dependencies]
tempfile = "=3.27.0"
