[package]
name = "agentpm"
version = "0.1.0"
edition = "2021"
publish = false

[dependencies]
serde_json = "=1.0.151"
jsonschema = { version = "=0.58.6", default-features = false }
toml = "=1.1.7"
ureq = { version = "=3.4.2", default-features = false }
globwalk = "=0.9.1"
directories = "=6.0.0"
clap = { version = "=4.6.7", features = ["derive", "env"] }
serde = { version = "*", features = ["derive"] }
thiserror = "*"
reqwest = { version = "=0.13.5", default-features = false }
tokio = { version = "=1.53.2", features = ["rt-multi-thread", "macros"] }
tracing = "*"
tracing-subscriber = { version = "*", features = ["env-filter"] }
