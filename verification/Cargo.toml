[package]
name = "weekly_commit"
version = "0.1.0"
edition = "2021"
publish = false

[dependencies]
anyhow = "1"
chrono = "0.4"
clap = { version = "4", features = ["derive"] }
crossterm = "0.28"
ratatui = "0.29"
sqlx = { version = "0.8", default-features = false, features = ["runtime-tokio", "sqlite"] }
terminal_size = "0.4"
tokio = { version = "1", features = ["macros", "rt-multi-thread"] }
