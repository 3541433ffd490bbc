[package]
name = "webserver"
version = "0.1.0"
edition = "2021"
publish = false

[dependencies]
anyhow = "1"
clap = { version = "4", features = ["derive"] }
galvyn = "*"
rand = "0.9"
serde = { version = "1", features = ["derive"] }
strum = { version = "0.27", features = ["derive"] }
time = "0.3"
time-tz = "2"
tokio = { version = "1", features = ["full"] }
tower-http = { version = "*", features = ["trace"] }
tracing = "0.1"
tracing-forest = "0.1"
tracing-subscriber = { version = "0.3", features = ["env-filter"] }
