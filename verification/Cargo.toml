[package]
name = "qbot_with_typ"
version = "0.1.0"
edition = "2021"
publish = false

[dependencies]
async-trait = "0.1"
base64 = "=0.22.1"
botrs = "=0.2.9"
clap = { version = "4", features = ["derive"] }
futures = "0.3"
libc = "0.2"
owo-colors = "=4.4.0"
serde = { version = "1", features = ["derive"] }
serde_json = "1"
thiserror = "2"
tokio = { version = "1", features = ["fs", "io-std", "io-util", "macros", "process", "rt-multi-thread", "sync", "time"] }
tracing = "0.1"
tracing-subscriber = { version = "0.3", features = ["env-filter"] }
