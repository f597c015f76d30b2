[package]
name = "shopify_inventory_manager"
version = "0.1.0"
edition = "2021"
publish = false

[dependencies]
anyhow = "1"
calamine = "0.30"
chrono = { version = "0.4", features = ["serde"] }
clokwerk = { version = "0.4", features = ["async"] }
csv = "1"
dotenv = "0.15"
lettre = "0.11"
notify = "6"
reqwest = { version = "0.12", features = ["json"] }
serde = { version = "1", features = ["derive"] }
serde_json = "1"
tokio = { version = "1", features = ["full"] }
tracing = "0.1"
tracing-subscriber = "0.3"
