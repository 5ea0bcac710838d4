[package]
name = "cli_utils"
version = "0.1.0"
edition = "2021"
publish = false

[dependencies]
regex = "1"
wildmatch = { version = "2", features = ["serde"] }
async-std = "1"
async-walkdir = "*"
futures = "0.3"
log = "0.4"
once_cell = "1"
serde = { version = "1", features = ["derive"] }
serde_regex = "1"
thiserror = "2"
tracing = "0.1"
tracing-subscriber = { version = "0.3", features = ["env-filter"] }
url = "2"
