[package]
name = "log_explorer"
version = "0.1.0"
edition = "2021"
publish = false

[dependencies]
tokio = { version = "=1.53.2", features = ["macros", "rt-multi-thread", "net"] }
axum = "=0.8.9"
tower-http = { version = "=0.7.1", features = ["fs"] }
serde = { version = "=1.0.229", features = ["derive"] }
reqwest = { version = "=0.13.5", default-features = false, features = ["json", "query"] }
anyhow = "=1.0.104"
