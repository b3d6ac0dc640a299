[package]
name = "jira_tracker"
version = "0.1.0"
edition = "2021"
publish = false

[dependencies]
ellipse = "*"
serde = { version = "1", features = ["derive"] }
serde_json = "1"
clearscreen = "*"
