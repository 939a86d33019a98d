[package]
name = "tui_todo"
version = "0.1.0"
edition = "2021"
publish = false

[dependencies]
chrono = { version = "0.4", features = ["serde"] }
crossterm = "0.28"
ratatui = { version = "0.29", features = ["serde"] }
regex = "1"
serde = { version = "1", features = ["derive"] }
serde_json = "1"
tokio = { version = "1", features = ["sync", "rt"] }
tui-textarea = "0.7"
uuid = { version = "1", features = ["v4", "serde"] }
