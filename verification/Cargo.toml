[package]
name = "pager"
version = "0.1.0"
edition = "2021"
publish = false

[dependencies]
anyhow = "*"
arboard = "*"
atty = "*"
bzip2 = "*"
clap = { version = "*", features = ["derive"] }
crossterm = "*"
dirs = "*"
flate2 = "*"
memmap2 = "*"
notify = "*"
ratatui = "*"
regex = "*"
serde = { version = "*", features = ["derive"] }
similar = "*"
syntect = "*"
toml = "*"
zstd = "*"
