[package]
name = "ws_room_server"
version = "0.1.0"
edition = "2021"
publish = false

[dependencies]
uuid = { version = "=1.29.0", features = ["v4"] }
chrono = { version = "=0.4.45", features = ["serde"] }
serde = { version = "=1.0.229", features = ["derive"] }
serde_json = "=1.0.154"
tokio = { version = "=1.54.1", features = ["full"] }
axum = { version = "=0.8.9", features = ["ws", "macros"] }
futures-util = "=0.3.34"
tower = "=0.5.3"
tower-http = { version = "=0.7.1", features = ["trace"] }
tracing = "=0.1.44"
tracing-subscriber = { version = "=0.3.23", features = ["json"] }
hyper = "=1.12.0"
aws-config = "=1.13.0"
aws-sdk-dynamodb = "=1.134.0"
aws-sdk-apigatewaymanagement = "=1.118.0"
lambda_http = "=1.3.2"
axum-aws-lambda = "=0.11.0"
