[package]
name = "traceroute-vis"
version = "0.1.0"
edition = "2021"
publish = false

[dependencies]
futures = "0.3"
reqwest = { version = "0.10", features = ["json"] }
serde = { version = "1", features = ["derive"] }
termion = "1.5"
tokio = { version = "0.2", features = ["macros", "rt-threaded"] }
tui = "0.9"
