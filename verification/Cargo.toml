[package]
name = "kakoune_acp"
version = "0.1.0"
edition = "2021"
publish = false

[dependencies]
agent-client-protocol = { version = "=3.1.0", features = ["process"] }
anyhow = "=1.0.104"
async-trait = "=0.1.92"
clap = { version = "=4.6.7", features = ["derive"] }
futures = "=0.3.34"
tokio = { version = "=1.53.2", features = ["fs", "io-util", "macros", "net", "process", "rt", "sync", "time"] }
tokio-util = { version = "=0.7.19", features = ["compat"] }

[dev-dependencies]
serde_json = "=1.0.151"
