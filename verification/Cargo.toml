[package]
name = "echo_core"
version = "0.1.0"
edition = "2021"
publish = false

[dependencies]
bytes = "=1.12.1"
chrono = "=0.4.45"
dotenvy = "=0.15.7"
futures = "=0.3.34"
serde = { version = "=1.0.229", features = ["derive"] }
serde_json = "=1.0.151"
tiny-tokio-actor = "=0.3.5"
tokio = { version = "=1.53.2", features = ["full"] }
tokio-stream = "=0.1.19"
uuid = { version = "=1.27.0", features = ["v4"] }
warp = { version = "=0.4.3", features = ["server", "websocket"] }
whoami = "=2.1.3"
