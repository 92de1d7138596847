[package]
name = "table_extractor"
version = "0.1.0"
edition = "2021"
publish = false

[dependencies]
csv = "1"
clap = { version = "4", features = ["derive"] }
clap_complete = "4"
regex = "1"
