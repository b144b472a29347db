[package]
name = "ble_collector"
version = "0.1.0"
edition = "2021"
publish = false

[dependencies]
anyhow = "*"
clap = { version = "*", features = ["derive"] }
humantime = "*"
humantime-serde = "*"
kanal = "=0.1.1"
metrics = "=0.24.6"
metrics-exporter-prometheus = "*"
metrics-util = "*"
regex = "=1.13.1"
rhai = { version = "=1.26.1", features = ["serde", "no_time"] }
rocket = { version = "*", features = ["json"] }
rumqttc = { version = "*", default-features = false }
serde = { version = "*", features = ["derive"] }
serde_json = "=1.0.151"
serde_yaml = "*"
thiserror = "*"
tokio = { version = "*", features = ["rt-multi-thread", "macros", "time", "sync"] }
uuid = "*"
