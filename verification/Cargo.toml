[package]
name = "pomodoro"
version = "0.1.0"
edition = "2021"
publish = false

[dependencies]
clap = "4"
notify-rust = "4"
serde = { version = "1", features = ["derive"] }
serde_json = "1"
