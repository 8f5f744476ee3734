[package]
name = "agent"
version = "0.1.0"
edition = "2021"
publish = false

[dependencies]
serde_json = "1"
serde = { version = "1", features = ["derive"] }
anyhow = "1"
thiserror = "*"
clap = { version = "4", features = ["derive"] }
rustyline = "*"
tokio = { version = "1", features = ["macros", "rt-multi-thread", "time", "process", "io-util"] }
rmcp = { version = "*", features = ["client", "transport-child-process"] }
aws-config = "1"
aws-sdk-bedrockruntime = "1"
aws-smithy-types = "1"
