[package]
name = "tablet-core"
version = "0.1.0"
edition = "2021"
publish = false

[dependencies]
anyhow = "1"
serde = { version = "1", features = ["derive"] }
serde_json = "1"
toml = "*"
clap = { version = "4", features = ["derive"] }
chrono = "*"
log = "*"
rust_xlsxwriter = "*"
calamine = "*"
umya-spreadsheet = "*"
