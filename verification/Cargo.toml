[package]
name = "lava_api"
version = "0.1.0"
edition = "2021"
publish = false

[dependencies]
boulder = { version = "=0.3.0", features = ["persian-rug"] }
bytes = "=1.12.1"
chrono = { version = "=0.4.45", default-features = false, features = ["std", "clock", "serde"] }
clocks = "=0.0.1"
clone-replace = "=0.1.1"
django-query = { version = "=0.2.1", features = ["wiremock", "persian-rug", "clone-replace"] }
futures = "=0.3.34"
junit-report = "=0.9.1"
log = "=0.4.34"
num = "=0.4.3"
persian-rug = { version = "=0.1.4", features = ["clone-replace"] }
regex = "=1.13.1"
reqwest = { version = "=0.11.27", default-features = false, features = ["json", "stream", "rustls-tls"] }
rust_decimal = "=1.43.0"
rust_decimal_macros = "=1.40.0"
serde = { version = "=1.0.229", features = ["derive"] }
serde_with = "=3.24.0"
serde_yaml = "=0.9.34"
strum = { version = "=0.28.0", features = ["derive"] }
thiserror = "=1.0.69"
tokio = { version = "=1.54.1", features = ["sync"] }
url = "=2.5.8"
wiremock = "=0.5.22"
