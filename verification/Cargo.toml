[package]
name = "verdant"
version = "0.1.0"
edition = "2021"
publish = false

[dependencies]
chrono = "*"
clap = { version = "*", features = ["derive"] }
libc = "*"
nix = { version = "*", features = ["fs", "mount", "process", "signal", "socket", "user"] }
regex = "*"
serde = { version = "*", features = ["derive"] }
serde_json = "*"
signal-hook = "*"
terminal_size = "*"
threadpool = "*"
toml = "*"
udev = "*"
wait-timeout = "*"
walkdir = "*"
