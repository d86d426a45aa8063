[package]
name = "assume_role"
version = "0.1.0"
edition = "2021"
publish = false

[dependencies]
anyhow = "1"
aws-config = "1"
aws-sdk-sts = "1"
aws-smithy-runtime = { version = "~1.7", features = ["client", "connector-hyper-0-14-x"] }
aws-smithy-runtime-api = "~1.7"
directories = "=6.0.0"
hyper = { version = "0.14", features = ["client"] }
hyper-proxy = { version = "0.9", default-features = false, features = ["rustls"] }
tokio = { version = "1", features = ["macros", "rt-multi-thread"] }
tracing-subscriber = { version = "0.3", features = ["env-filter"] }

[dev-dependencies]
serde_json = "1"
