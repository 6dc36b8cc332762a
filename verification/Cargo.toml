[package]
name = "chat_core"
version = "0.1.0"
edition = "2021"
publish = false

[dependencies]
bincode = "=1.3.3"
chrono = "=0.4.45"
tokio = { version = "=1.54.1", features = ["full"] }
ratatui = "=0.28.1"
crossterm = "=0.28.1"
tui-textarea = "=0.6.1"

[dev-dependencies]
tokio-util = { version = "0.7", features = ["codec"] }
bytes = "=1.12.1"
