[package]
name = "graphql_gateway"
version = "0.1.0"
edition = "2021"
publish = false

[dependencies]
anyhow = "*"
async-graphql = { version = "*", features = ["dynamic-schema"] }
derive_setters = "*"
headers = "*"
htpasswd-verify = "*"
log = "*"
mini-v8 = "*"
once_cell = "*"
reqwest = { version = "*", default-features = false }
serde_json = "*"
