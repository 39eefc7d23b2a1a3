[package]
name = "kickass_app_template"
version = "0.1.0"
edition = "2021"
publish = false

[dependencies]
futures = "0.3"
message-io = "*"
ron = "*"
serde = { version = "1", features = ["derive"] }
tokio = { version = "1", features = ["rt-multi-thread", "sync", "time"] }
