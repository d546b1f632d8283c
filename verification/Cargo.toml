[package]
name = "webserver_base"
version = "0.1.0"
edition = "2021"
publish = false

[dependencies]
axum = "=0.8.9"
axum-extra = { version = "=0.12.6", features = ["routing"] }
chrono = { version = "=0.4.45", features = ["serde"] }
handlebars = "=6.4.4"
http = "=1.5.0"
md5 = "=0.8.1"
plausible-rs = "=0.1.5"
regex = "=1.13.1"
reqwest = "=0.12.28"
sentry = { version = "=0.49.3", features = ["tower", "tracing"] }
serde = { version = "=1.0.229", features = ["derive"] }
serde_json = "=1.0.154"
sitemap-rs = "=0.2.2"
tokio = { version = "=1.54.1", features = ["full"] }
tower = "=0.5.3"
tower-http = { version = "=0.6.11", features = ["fs", "trace"] }
tracing = "=0.1.44"
tracing-subscriber = { version = "=0.3.23", features = ["env-filter"] }
xml-builder = "=0.5.4"
