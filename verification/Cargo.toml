[package]
name = "opcua_server"
version = "0.1.0"
edition = "2021"
publish = false

[dependencies]
async-opcua-types = "=0.19.0"
async-opcua-core = "=0.19.0"
async-opcua-crypto = "=0.19.0"
async-opcua-nodes = "=0.19.0"
serde = { version = "=1.0.229", features = ["derive"] }
