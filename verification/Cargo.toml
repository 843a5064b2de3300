[package]
name = "zerotrace-agent"
version = "0.1.0"
edition = "2021"
publish = false

[dependencies]
anyhow = "1"
arc-swap = "1"
async-trait = "0.1"
bincode = "2"
clap = { version = "4", features = ["derive"] }
dns-lookup = "2"
flate2 = "1"
flexi_logger = "0.29"
log = "0.4"
nix = { version = "0.29", features = ["signal", "process"] }
parking_lot = "0.12"
regex = "1"
signal-hook = "0.3"
tokio = { version = "1", features = ["rt-multi-thread", "sync", "time", "macros"] }
tracing = "0.1"
xshell = "0.2"
zstd = "0.13"
