[package]
name = "dmn"
version = "0.1.0"
edition = "2021"
publish = false

[dependencies]
anyhow = "1"
async-std = { version = "=1.13.2", features = ["attributes", "unstable"] }
chrono = { version = "=0.4.45", features = ["serde"] }
chrono-humanize = "=0.2.3"
clap = { version = "=4.6.7", features = ["derive"] }
colored = "=3.1.1"
comfy-table = "=7.2.2"
csv = "=1.4.0"
dirs = "*"
dotenvy = "0.15"
figment = { version = "=0.10.19", features = ["env", "toml"] }
icalendar = "=0.17.15"
maud = "=0.27.0"
poem = "=3.1.12"
poem-openapi = { version = "=5.1.16", features = ["chrono"] }
regex = "=1.13.1"
reqwest = { version = "=0.12.28", default-features = false, features = ["json", "rustls-tls"] }
serde = { version = "1", features = ["derive"] }
serde_json = "=1.0.154"
sqlx = { version = "=0.8.6", default-features = false, features = ["sqlite", "runtime-async-std", "chrono", "json", "derive", "migrate"] }
tracing = "0.1"
tracing-subscriber = "0.3"
