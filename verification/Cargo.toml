[package]
name = "slippi_ratings"
version = "0.1.0"
edition = "2021"
publish = false

[dependencies]
anyhow = "=1.0.104"
axum = { version = "=0.8.9", features = ["ws"] }
bincode = "=2.0.1"
chrono = "=0.4.45"
fs2 = "=0.4.3"
futures = "=0.3.34"
once_cell = "=1.21.4"
peppi = "=2.1.2"
rayon = "=1.12.0"
regex = "=1.13.1"
serde = { version = "=1.0.229", features = ["derive"] }
serde_json = "=1.0.154"
tokio = { version = "=1.54.1", features = ["full"] }
toml = "=0.8.23"
tower-http = { version = "=0.6.11", features = ["fs"] }
utoipa = "=5.5.0"
utoipa-swagger-ui = { version = "=9.0.2", features = ["axum", "vendored"] }
walkdir = "=2.5.0"
