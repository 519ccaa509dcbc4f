[package]
name = "taskqueue"
version = "0.1.0"
edition = "2021"
publish = false

[dependencies]
redis = { version = "*", features = ["tokio-comp"] }
tokio = { version = "1", features = ["full"] }
async-trait = "*"
futures = "*"
num_cpus = "*"
rmp-serde = "*"
serde = { version = "1", features = ["derive"] }
serde_json = "1"
uuid = { version = "1", features = ["v4"] }
