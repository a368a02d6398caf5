[package]
name = "surfrs"
version = "0.1.0"
edition = "2021"
publish = false

[dependencies]
chrono = "=0.4.45"
csv = "=1.4.0"
geojson = "*"
gribberish = "=1.9.0"
quick-xml = { version = "*", features = ["serialize"] }
regex = "=1.13.1"
serde = { version = "=1.0.229", features = ["derive"] }
serde_json = "=1.0.154"
sunrise = "*"
