[package]
name = "commander_mcp"
version = "0.1.0"
edition = "2021"
publish = false

[dependencies]
pmdaemon = "=0.1.4"
rmcp = { version = "=0.7.0", features = ["server", "transport-io", "macros"] }
tokio = { version = "=1.54.1", features = ["full"] }
serde = { version = "=1.0.229", features = ["derive"] }
schemars = "=1.2.3"
anyhow = "=1.0.104"
chrono = "=0.4.45"
tracing = "=0.1.44"
tracing-subscriber = { version = "=0.3.23", features = ["env-filter"] }
libc = "=0.2.191"
winapi = { version = "=0.3.9", features = ["processthreadsapi", "handleapi", "winnt"] }

[dev-dependencies]
serde_json = "=1.0.154"
