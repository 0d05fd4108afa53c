[package]
name = "lacon_core"
version = "0.1.0"
edition = "2021"
publish = false

[dependencies]
regex = "=1.13.1"
serde = { version = "=1.0.229", features = ["derive"] }
serde-saphyr = "=2.0.0"
rusqlite = { version = "=0.41.1", features = ["bundled"] }
etcetera = "=0.11.0"
nix = { version = "=0.31.3", features = ["signal"] }
signal-hook = "=0.3.18"
os_pipe = "=1.2.3"
crossbeam-channel = "=0.5.17"
starlark = "=0.14.2"
rust-embed = "=8.13.0"
smallvec = "=1.16.4"
thiserror = "=2.0.21"
