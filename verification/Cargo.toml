[package]
name = "agent_nodes"
version = "0.1.0"
edition = "2021"
publish = false

[dependencies]
uuid = { version = "*", features = ["v4", "v5"] }
regex = "*"
serde_json = "*"
rustc_apfloat = "*"
serde = { version = "*", features = ["derive"] }
schemars = "*"
clap = { version = "*", features = ["derive"] }
tokio = { version = "*", features = ["rt", "macros", "io-util", "fs", "net", "sync", "time"] }
async-trait = "*"
