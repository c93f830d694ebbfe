[package]
name = "financial_lib"
version = "0.1.0"
edition = "2021"
publish = false

[dependencies]
chrono = "0.4"
color-eyre = "0.6"
crossterm = "*"
diesel = { version = "2", features = ["sqlite"] }
dotenvy = "0.15"
libsqlite3-sys = { version = "*", features = ["bundled"] }
ratatui = "*"
tokio = { version = "1", features = ["full"] }
