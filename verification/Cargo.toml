[package]
name = "charge_point"
version = "0.1.0"
edition = "2021"
publish = false

[dependencies]
async-trait = "*"
chrono = "*"
log = "*"
ocpp-client = "*"
serde = { version = "*", features = ["derive"] }
tokio = { version = "*", features = ["macros", "rt", "sync", "time"] }
