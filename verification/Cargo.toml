[package]
name = "cdc_pipeline"
version = "0.1.0"
edition = "2021"
publish = false

[dependencies]
redis = { version = "*", features = ["tokio-comp", "streams"] }
tokio = { version = "*", features = ["rt-multi-thread", "macros", "sync", "time"] }
serde_json = "*"
csv = "*"
dotenv = "*"
tracing = "*"
tracing-subscriber = { version = "*", features = ["env-filter", "fmt"] }
openssl-probe = "*"
