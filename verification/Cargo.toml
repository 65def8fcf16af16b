[package]
name = "gal"
version = "0.1.0"
edition = "2021"
publish = false

[dependencies]
chrono = "=0.4.45"
clap = { version = "4", features = ["derive"] }
color-eyre = "0.6"
crossterm = { version = "0.29", features = ["event-stream"] }
futures = "0.3"
octocrab = "=0.40.0"
ratatui = "=0.30.2"
throbber-widgets-tui = "=0.11.1"
tokio = { version = "1", features = ["full"] }
tokio-stream = "0.1"
tracing = "0.1"
tracing-appender = "0.2"
tracing-subscriber = { version = "0.3", features = ["env-filter"] }
unicode-width = "=0.2.3"
webbrowser = "1"
zip = { version = "=7.4.0", default-features = false, features = ["deflate"] }
