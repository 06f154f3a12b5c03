[package]
name = "toolcall"
version = "0.1.0"
edition = "2021"
publish = false

[dependencies]
serde_json = { version = "=1.0.151", features = ["preserve_order"] }
serde = { version = "*", features = ["derive"] }
indexmap = { version = "=2.14.2", features = ["serde"] }
anyhow = "*"
tokio = { version = "=1.53.2", features = ["full"] }
futures = "*"
rmcp = { version = "=3.5.1", features = ["client", "transport-child-process", "transport-streamable-http-client-reqwest"] }
reqwest = { version = "=0.13.5", default-features = false, features = ["json"] }
