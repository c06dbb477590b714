[package]
name = "nier"
version = "0.1.0"
edition = "2021"
publish = false

[dependencies]
uuid = { version = "*", features = ["v4"] }
anyhow = "*"
async-trait = "*"
aws-config = "*"
aws-sdk-s3 = "*"
axum = "*"
base64 = "*"
bytes = "*"
chrono = { version = "*", features = ["serde"] }
futures = "*"
rdkafka = "*"
serde = { version = "*", features = ["derive"] }
serde_json = "*"
sqlx = { version = "*", default-features = false, features = ["runtime-tokio", "postgres", "chrono", "uuid", "json", "migrate"] }
thiserror = "*"
tokio = { version = "*", features = ["rt-multi-thread", "macros", "sync", "signal", "net", "time"] }
tokio-stream = "*"
tower-http = { version = "*", features = ["cors", "trace"] }

[dev-dependencies]
