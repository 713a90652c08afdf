[package]
name = "zorg"
version = "0.1.0"
edition = "2021"
publish = false

[dependencies]
fuzzy-matcher = "0.3"
unicode-width = "0.2"
ratatui = "0.29"
crossterm = "0.28"
diesel = { version = "2", features = ["sqlite"] }
chrono = "0.4"
clap = { version = "4", features = ["derive"] }
dotenvy = "0.15"
