[package]
name = "procmon"
version = "0.1.0"
edition = "2021"
publish = false

[dependencies]
nix = { version = "=0.31.3", features = ["feature", "process", "sched", "signal", "user"] }
libc = "0.2"
