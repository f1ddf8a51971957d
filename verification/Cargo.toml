[package]
name = "serial_term"
version = "0.1.0"
edition = "2021"
publish = false

[dependencies]
encoding_rs = "0.8"
chardetng = "0.1"
unicode-width = "0.2"
chrono = "0.4"
serialport = { version = "4", default-features = false }
ratatui = "0.29"
crossterm = "0.28"
tui-textarea = "0.7"
clap = { version = "4", features = ["derive"] }
serde = { version = "1", features = ["derive"] }
toml = "0.8"
directories = "5"
crossbeam-channel = "0.5"
anyhow = "1"
tracing = "0.1"
tracing-subscriber = "0.3"
windows-sys = { version = "0.59", features = ["Win32_System_Console"] }
