[package]
name = "alpha-g-data-handler"
version = "0.1.0"
edition = "2021"
publish = false

[dependencies]
anyhow = "=1.0.104"
askama_axum = "=0.4.0"
axum = { version = "=0.7.9", features = ["ws"] }
clap = { version = "=4.6.7", features = ["derive"] }
directories = "=5.0.1"
futures = "=0.3.34"
indicatif = "=0.17.11"
jsonwebtoken = "=9.3.1"
rand = "=0.8.8"
semver = "=1.0.28"
serde = { version = "=1.0.229", features = ["derive"] }
serde_json = "=1.0.154"
time = { version = "=0.3.55", features = ["formatting"] }
tokio = { version = "=1.54.1", features = ["full"] }
tower-http = { version = "=0.5.2", features = ["fs"] }
