[package]
name = "aud"
version = "0.1.0"
edition = "2021"
publish = false

[dependencies]
crc32fast = "=1.5.4"
serde = { version = "=1.0.229", features = ["derive"] }
bincode = "=1.3.3"
crossbeam = "=0.8.5"
anyhow = "=1.0.104"
dirs = "=5.0.1"
log = "=0.4.35"
fern = "=0.6.2"
humantime = "=2.4.0"
clap = { version = "=4.6.7", features = ["derive"] }
clap_complete = "=4.6.11"
colored = "=2.2.0"
ratatui = "=0.26.3"
crossterm = "=0.27.0"
