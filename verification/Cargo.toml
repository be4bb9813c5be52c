[package]
name = "git_foreach"
version = "0.1.0"
edition = "2021"
publish = false

[dependencies]
anyhow = "1"
arboard = "3"
crossterm = "0.28"
dirs = "5"
glob = "0.3"
nix = { version = "0.29", features = ["signal", "process"] }
ratatui = "0.29"
serde = { version = "1", features = ["derive"] }
toml = "0.8"
tui-input = "0.11"
