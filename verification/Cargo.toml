[package]
name = "copilot_client"
version = "0.1.0"
edition = "2021"
publish = false

[dependencies]
chrono = "=0.4.45"
crossterm = "=0.29.0"
futures = "=0.3.34"
homedir = "=0.2.1"
oxc_allocator = "=0.141.0"
rand = "=0.8.8"
reqwest = { version = "=0.12.28", features = ["json", "stream"] }
rustyline = "=19.0.0"
serde = { version = "=1.0.229", features = ["derive"] }
serde_json = "=1.0.154"
syntect = "=5.3.0"
tokio = { version = "=1.54.1", features = ["macros", "rt-multi-thread", "time"] }
uuid = { version = "=1.29.0", features = ["v4"] }
