[package]
name = "flamingo"
version = "0.1.0"
edition = "2021"
publish = false

[dependencies]
clap = { version = "=4.6.7", features = ["derive", "env", "cargo"] }
dirs = "=7.0.0"
itertools = "=0.15.0"
log = "=0.4.35"
ratatui = "0.30"
regex = "=1.13.1"
serde = { version = "=1.0.229", features = ["derive"] }
serde_json = "=1.0.154"
simplelog = "=0.12.2"
syntect-assets = "=0.23.6"
tempdir = "=0.3.7"
termbg = "=0.6.2"
thiserror = "=2.0.21"
toml = "=1.1.8"
tui-big-text = "=0.8.10"
tui-input = "0.15"
tui-syntax-highlight = "=0.2.0"
url = "=2.5.8"
webbrowser = "=1.2.6"
