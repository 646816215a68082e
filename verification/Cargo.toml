[package]
name = "agent_configuration"
version = "0.1.0"
edition = "2021"
publish = false

[dependencies]
itertools = "0.14"
anyhow = "1"
serde_json = "1"
