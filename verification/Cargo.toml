[package]
name = "weather_backend"
version = "0.1.0"
edition = "2021"
publish = false

[dependencies]
sunrise = "*"
chrono = "*"
axum = "*"
tokio = { version = "*", features = ["full"] }
clap = { version = "*", features = ["derive", "env"] }
dotenvy = "*"
influxdb2 = "*"
influxdb2-structmap = "*"
num-traits = "*"
serde = { version = "*", features = ["derive"] }
serde_json = "*"
thiserror = "*"
tower-http = { version = "*", features = ["fs"] }
tracing-subscriber = { version = "*", features = ["env-filter"] }
