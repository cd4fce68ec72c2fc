[package]
name = "completion_table"
version = "0.1.0"
edition = "2021"
publish = false

[dependencies]
clap = { version = "4", features = ["cargo"] }
clap_complete = "4"
serde = { version = "1", features = ["derive"] }
serde_json = "1"
