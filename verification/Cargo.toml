[package]
name = "notecypher"
version = "0.1.0"
edition = "2021"
publish = false

[dependencies]
image = { version = "0.25", default-features = false, features = ["png"] }
lopdf = "*"
miniz_oxide = "*"
serde_json = "1"
chrono = "0.4"
dirs = "*"
tokio = { version = "1", features = ["sync"] }
iced = { version = "0.13", default-features = false, features = ["tokio"] }
