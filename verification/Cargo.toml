[package]
name = "gh_issue_import"
version = "0.1.0"
edition = "2021"
publish = false

[dependencies]
clap = { version = "4", features = ["derive"] }
rpassword = "7"
serde = { version = "1", features = ["derive"] }
serde_json = "1"
serde_norway = "0.9"
ureq = "3"
