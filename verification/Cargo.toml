[package]
name = "dynamic_dns"
version = "0.1.0"
edition = "2021"
publish = false

[dependencies]
anyhow = "1"
aws-config = "1"
aws-sdk-route53 = "1"
chrono = "0.4"
clap = { version = "4", features = ["derive"] }
reqwest = "*"
tokio = { version = "1", features = ["macros", "rt-multi-thread", "time"] }
