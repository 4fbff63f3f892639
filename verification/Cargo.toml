[package]
name = "vzdv"
version = "0.1.0"
edition = "2021"
publish = false

[dependencies]
anyhow = "=1.0.104"
base64 = "=0.22.1"
chrono = "=0.4.45"
chrono-tz = "=0.10.4"
clap = { version = "4", features = ["derive"] }
log = "=0.4.35"
minijinja = "=2.24.0"
pretty_env_logger = "0.5"
reqwest = { version = "=0.12.28", default-features = false, features = ["json", "rustls-tls"] }
serde = { version = "=1.0.229", features = ["derive"] }
serde_json = "=1.0.154"
sqlx = { version = "0.8", default-features = false, features = ["sqlite", "runtime-tokio", "chrono"] }
tokio = { version = "=1.54.1", features = ["rt-multi-thread", "macros", "time"] }
toml = "=0.8.23"
urlencoding = "=2.1.3"
vatsim_utils = "*"
voca_rs = "=1.15.2"
