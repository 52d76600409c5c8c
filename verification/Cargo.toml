[package]
name = "weather_station"
version = "0.1.0"
edition = "2021"

[dependencies]
colored = "=2.2.0"
dotenv = "=0.15.0"
reqwest = { version = "=0.12.28", default-features = false, features = ["blocking", "json"] }
serde = { version = "=1.0.229", features = ["derive"] }

[dev-dependencies]
serde_json = "=1.0.154"
