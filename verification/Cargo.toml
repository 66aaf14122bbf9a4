[package]
name = "aoscbootstrap"
version = "0.1.0"
edition = "2021"
publish = false

[dependencies]
anyhow = "=1.0.104"
bytesize = "=1.3.3"
clap = "=3.2.25"
fs3 = "=0.5.0"
libc = "=0.2.191"
nix = { version = "=0.29.0", features = ["fs", "mount", "process", "sched", "signal", "user"] }
serde = { version = "1", features = ["derive"] }
toml = "0.5"
