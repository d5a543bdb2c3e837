[package]
name = "windows_registry_searcher"
version = "0.1.0"
edition = "2021"
publish = false

[dependencies]
crossterm = "*"
directories = "*"
num_cpus = "*"
parking_lot = "*"
ratatui = "*"
tokio = { version = "*", features = ["rt-multi-thread", "macros", "sync", "time"] }
tracing = "*"
tracing-appender = "*"
tracing-subscriber = "*"
winreg = "*"
