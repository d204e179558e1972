[package]
name = "mcp_runtime"
version = "0.1.0"
edition = "2021"
publish = false

[dependencies]
rmcp = { version = "=1.8.0", default-features = false, features = ["client", "server", "transport-child-process", "transport-streamable-http-client-reqwest", "auth", "reqwest"] }
reqwest = { version = "0.13", default-features = false, features = ["json"] }
http = "1"
tokio = { version = "1", features = ["rt", "process", "io-util"] }
uuid = { version = "1", features = ["v4"] }
serde_json = "1"
futures = "0.3"
log = "0.4"
async-fs = "2"
