[package]
name = "telemetry_node"
version = "0.1.0"
edition = "2021"
publish = false

[dependencies]
embedded-websocket = "=0.9.5"
rand = "=0.8.5"
