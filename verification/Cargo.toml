[package]
name = "delivery_load"
version = "0.1.0"
edition = "2021"
publish = false

[dependencies]
uuid = { version = "1", features = ["v4"] }
tokio = { version = "1", features = ["full"] }
futures = "0.3"
pulsar = { version = "*", default-features = false, features = ["tokio-runtime", "compression"] }
redis = { version = "*", features = ["tokio-comp"] }
bb8 = "*"
bb8-redis = "*"
tracing-subscriber = { version = "0.3", features = ["env-filter"] }
