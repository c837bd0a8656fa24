[package]
name = "tempus"
version = "0.1.0"
edition = "2021"
publish = false

[dependencies]
axum = "*"
chrono = { version = "*", features = ["serde"] }
dotenvy = "*"
env_logger = "*"
log = "*"
metrics = "*"
metrics-exporter-prometheus = "*"
once_cell = "*"
rdkafka = "*"
reqwest = { version = "*", default-features = false, features = ["json", "rustls-tls"] }
sea-orm = { version = "*", features = ["sqlx-postgres", "runtime-tokio-rustls", "macros", "with-chrono", "with-json", "with-uuid"] }
sea-orm-migration = { version = "*", features = ["sqlx-postgres", "runtime-tokio-rustls"] }
serde = { version = "*", features = ["derive"] }
serde_json = "*"
thiserror = "*"
tokio = { version = "*", features = ["macros", "rt-multi-thread", "signal", "time"] }
tokio-util = "*"
uuid = { version = "*", features = ["v4", "serde"] }
