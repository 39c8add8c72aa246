[package]
name = "rift_workspaces"
version = "0.1.0"
edition = "2021"
publish = false

[dependencies]
objc2-core-foundation = "*"
objc2-core-graphics = "*"
regex = "1"
serde = { version = "1", features = ["derive"] }
serde_json = "1"
serde_with = "*"
slotmap = "1"
tracing = "0.1"
