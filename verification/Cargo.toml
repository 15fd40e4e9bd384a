[package]
name = "mcp_edge_gateway"
version = "0.1.0"
edition = "2021"
publish = false

[dependencies]
lru = "0.12"
serde = { version = "1", features = ["derive"] }
serde_json = "1"
tokio = { version = "1", features = ["sync", "time", "rt", "macros"] }
thiserror = "1"
uuid = { version = "1", features = ["v4"] }
chrono = "0.4"
