[package]
name = "geoindex"
version = "0.1.0"
edition = "2021"
publish = false

[dependencies]
rstar = "*"
crs-definitions = "*"
proj4rs = "*"
proj4wkt = "*"
xml-rs = "*"
json-event-parser = "*"
uuid = { version = "*", features = ["v4"] }
serde = { version = "*", features = ["derive"] }
axum = "*"
http = "*"
tokio = { version = "*", features = ["full"] }
tower-http = { version = "*", features = ["cors"] }
futures = "*"
rusqlite = { version = "*", features = ["bundled"] }
