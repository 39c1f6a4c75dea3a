[package]
name = "unifiedpush_gotify"
version = "0.1.0"
edition = "2021"
publish = false

[dependencies]
serde = { version = "*", features = ["derive"] }
serde_json = "*"
log = "*"
env_logger = "*"
lazy_static = "*"
directories-next = "*"
r2d2 = "*"
r2d2_sqlite = { version = "*", features = ["bundled"] }
reqwest = { version = "*", default-features = false, features = ["json", "blocking"] }
tokio = { version = "*", features = ["rt-multi-thread", "time", "macros"] }
tokio-tungstenite = "*"
futures-util = "*"
zbus = "*"
