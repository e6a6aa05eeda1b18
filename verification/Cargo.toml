[package]
name = "dw_pipeline"
version = "0.1.0"
edition = "2021"
publish = false

[dependencies]
concurrent-queue = "2"
tokio = { version = "1", features = ["full"] }
hyper = { version = "0.14", features = ["full"] }
redis = "*"
mysql_async = "*"
clap = { version = "4", features = ["derive"] }
local-ip-address = "*"
