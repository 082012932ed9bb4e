[package]
name = "syncopy"
version = "0.1.0"
edition = "2021"
publish = false

[dependencies]
ignore = "*"
walkdir = "*"
tar = "*"
flate2 = "*"
better_progress = "*"
chrono = "*"
clap = "2"
regex = "*"
reqwest = { version = "*", default-features = false }
serde = { version = "*", features = ["derive"] }
serde_json = "*"
tokio = { version = "*", features = ["macros", "rt-multi-thread"] }
toml = "*"

[dev-dependencies]
tempfile = "*"
