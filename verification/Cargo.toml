[package]
name = "iroh_bridge"
version = "0.1.0"
edition = "2021"
publish = false

[dependencies]
dashmap = "*"
uuid = { version = "*", features = ["v4"] }
serde = { version = "*", features = ["derive"] }
serde_json = "*"
tokio = { version = "*", features = ["macros", "rt-multi-thread", "time", "net", "sync"] }
iroh = "*"
iroh-gossip = "*"
axum = "*"
tower-http = { version = "*", default-features = false, features = ["cors"] }
toml = "*"
anyhow = "*"
thiserror = "*"
tracing = "*"
futures = { version = "*", default-features = false, features = ["std"] }
