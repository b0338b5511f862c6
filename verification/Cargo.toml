[package]
name = "panduza_utils"
version = "0.1.0"
edition = "2021"
publish = false

[dependencies]
rand = "0.8"
dirs = "*"
rumqttc = "*"
rumqttd = "*"
serde = { version = "*", features = ["derive"] }
serde_json = "*"
serde_json5 = "*"
tracing = "*"
tracing-subscriber = { version = "*", features = ["env-filter"] }
config = "*"
