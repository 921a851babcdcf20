[package]
name = "zond"
version = "0.1.0"
edition = "2021"
publish = false

[dependencies]
rand = "0.9"
console = "0.15"
unicode-width = "0.2"
colored = "3"
clap = { version = "4", features = ["derive"] }
anyhow = "1"
tracing = "0.1"
tracing-subscriber = { version = "0.3", features = ["env-filter"] }
tracing-indicatif = "0.3"
indicatif = "*"
tokio = { version = "1", features = ["full"] }
crossterm = "0.28"
is-root = "0.1"
sys-info = "0.9"
pnet = "0.35"
