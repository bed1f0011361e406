[package]
name = "gps_tracker"
version = "0.1.0"
edition = "2021"
publish = false

[dependencies]
hex = "0.4"
serde = { version = "1", features = ["derive"] }
serde_json = "1"
clap = { version = "4", features = ["derive"] }
toml = "*"
chrono = "*"
tokio = { version = "1", features = ["net", "rt", "rt-multi-thread", "macros", "time"] }
ieee-754 = "*"
