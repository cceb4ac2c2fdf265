[package]
name = "mailflow"
version = "0.2.2"
edition = "2021"
publish = false

[dependencies]
regex = "=1.13.1"
uuid = { version = "=1.29.0", features = ["v4"] }
md-5 = "=0.10.6"
rand = "=0.8.8"
mail-parser = "=0.9.4"
lettre = { version = "=0.11.23", default-features = false, features = ["builder"] }
chrono = { version = "=0.4.45", features = ["serde"] }
serde = { version = "1", features = ["derive"] }
serde_json = "1"
thiserror = "=1.0.69"
async-trait = "0.1"
tokio = { version = "1", features = ["macros", "rt-multi-thread", "time", "sync"] }
tracing = "0.1"
tracing-subscriber = { version = "0.3", features = ["json"] }
lambda_runtime = "=1.5.0"
aws-config = { version = "=1.13.0", default-features = false, features = ["behavior-version-latest", "rt-tokio"] }
aws-sdk-s3 = { version = "=1.155.0", default-features = false, features = ["rt-tokio"] }
aws-sdk-sqs = { version = "=1.117.0", default-features = false, features = ["rt-tokio"] }
aws-sdk-ses = { version = "=1.121.0", default-features = false, features = ["rt-tokio"] }
aws-sdk-dynamodb = { version = "=1.134.0", default-features = false, features = ["rt-tokio"] }
aws-sdk-cloudwatch = { version = "=1.138.0", default-features = false, features = ["rt-tokio"] }

[dev-dependencies]
base64 = "=0.22.1"
