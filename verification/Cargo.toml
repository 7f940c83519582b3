[package]
name = "rusty_time_logger"
version = "0.1.0"
edition = "2021"
publish = false

[dependencies]
chrono = "0.4"
regex = "1"
rand = "0.8"
serde_json = "1"
dirs = "5"
once_cell = "1"
reqwest = { version = "0.12", default-features = false, features = ["json"] }
