[package]
name = "tool_router"
version = "0.1.0"
edition = "2021"
publish = false

[dependencies]
futures = "0.3"
schemars = "1"
serde_json = "1"
