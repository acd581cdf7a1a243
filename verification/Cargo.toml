[package]
name = "typing_game"
version = "0.1.0"
edition = "2021"
publish = false

[dependencies]
async-deferred = "*"
crossterm = { version = "0.28", features = ["event-stream"] }
futures = "0.3"
log = "0.4"
once_cell = "1"
rand = "0.9"
ratatui = "0.29"
serde = { version = "1", features = ["derive"] }
serde_json = "1"
simple-logging = "2"
tokio = { version = "1", features = ["full"] }
toml = "0.8"
tui-scrollview = "0.5"
