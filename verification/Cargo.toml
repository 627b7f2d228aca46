[package]
name = "fmtstruct"
version = "0.1.0"
edition = "2021"
publish = false

[dependencies]
async-trait = "=0.1.92"
postcard = { version = "=1.1.3", features = ["use-std"] }
serde = { version = "=1.0.229", features = ["derive"] }
serde_json = "=1.0.154"
serde_yaml = "=0.9.34"
thiserror = "=2.0.21"
tokio = { version = "=1.54.1", features = ["fs", "rt", "macros"] }
toml = "=1.1.8"
validator = "=0.21.0"

[dev-dependencies]
regex = "=1.13.1"
tempfile = "3"
