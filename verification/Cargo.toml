[package]
name = "handoff"
version = "0.1.0"
edition = "2021"
publish = false

[dependencies]
futures = "0.3"
pin-project = "1"
pinned-aliasable = "*"
thiserror = "1"
twinsies = "*"

[dev-dependencies]
tokio = { version = "1", features = ["rt", "rt-multi-thread"] }
