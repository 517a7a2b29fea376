[package]
name = "geostore"
version = "0.1.0"
edition = "2021"
publish = false

[dependencies]
ip2location = "*"
anyhow = "*"
axum = "*"
tokio = { version = "*", features = ["full"] }
tower = { version = "*", features = ["timeout", "util"] }
tower-http = { version = "*", features = ["trace", "add-extension"] }
tracing = "*"
tracing-subscriber = "*"
