[package]
name = "twr"
version = "0.1.0"
edition = "2021"
publish = false

[dependencies]
url = "2"
scraper = "*"
dom_smoothie = "*"
textwrap = "*"
toml = "*"
serde = { version = "1", features = ["derive"] }
directories = "*"
anyhow = "1"
tokio = { version = "1", features = ["rt-multi-thread", "macros", "time", "sync"] }
reqwest = { version = "*", default-features = false, features = ["rustls-tls"] }
chromiumoxide = "0.9"
futures = "0.3"
ratatui = "*"
crossterm = { version = "*", features = ["event-stream"] }
clap = { version = "4", features = ["derive"] }
tracing = "0.1"
tracing-subscriber = { version = "0.3", features = ["env-filter"] }
