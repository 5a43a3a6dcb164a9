[package]
name = "sitewhere_controller"
version = "0.1.0"
edition = "2021"
publish = false

[dependencies]
futures = "=0.3.34"
reqwest = { version = "=0.12.28", default-features = false, features = ["json"] }
rumqttc = { version = "=0.25.1", default-features = false }
rust-s3 = { version = "=0.38.0", default-features = false, features = ["with-tokio", "fail-on-err"] }
serde_json = "=1.0.154"
tokio = { version = "=1.54.1", features = ["rt-multi-thread", "macros", "sync", "time"] }
tracing = "=0.1.44"
tracing-subscriber = "=0.3.23"
