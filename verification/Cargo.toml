[package]
name = "eve_ingest"
version = "0.1.0"
edition = "2021"
publish = false

[dependencies]
chrono = "0.4"
serde_json = "1"
diesel = { version = "2", features = ["postgres", "serde_json"] }
diesel_migrations = "2"
log = "0.4"
