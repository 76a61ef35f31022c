[package]
name = "smarthome_mcp"
version = "0.1.0"
edition = "2021"
publish = false

[dependencies]
serde_json = "1"
serde = { version = "1", features = ["derive"] }
toml = "0.8"
ipnet = { version = "2", features = ["serde"] }
reqwest = { version = "0.12", default-features = false, features = ["json"] }
rumqttc = { version = "0.24", default-features = false }
tokio = { version = "1", features = ["full"] }
tokio-util = "0.7"
axum = "0.8"
tower = { version = "0.5", features = ["util"] }
http-body = "1"
http-body-util = "0.1"
bytes = "1"
rmcp = { version = "*", features = ["server", "macros", "transport-streamable-http-server"] }
schemars = "1"
thiserror = "2"
tracing = "0.1"
tracing-subscriber = { version = "0.3", features = ["env-filter"] }
