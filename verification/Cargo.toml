[package]
name = "cas"
version = "0.1.0"
edition = "2021"
publish = false

[dependencies]
caps = "0.5"
chrono = "0.4"
clap = { version = "4", features = ["derive"] }
dashmap = "6"
env_logger = "0.11"
errno = "0.3"
fuser = "*"
globset = "0.4"
libc = "0.2"
log = "0.4"
nix = { version = "0.29", features = ["fs", "mount", "poll", "process", "sched", "signal", "term", "user"] }
postcard = { version = "1", features = ["alloc"] }
rand = "0.8"
serde = { version = "1", features = ["derive"] }
tempfile = "3"
thiserror = "1"
tokio = { version = "1", features = ["full"] }
toml = "0.8"
