[package]
name = "capsudo"
version = "0.1.0"
edition = "2021"
publish = false

[dependencies]
async-trait = "0.1"
libc = "0.2"
nix = { version = "0.30", features = ["fs", "hostname", "ioctl", "poll", "process", "signal", "socket", "term", "uio", "user"] }
tokio = { version = "1", features = ["io-util", "macros", "net", "process", "rt-multi-thread", "signal", "sync", "time"] }
