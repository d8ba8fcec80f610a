[package]
name = "rargate"
version = "1.2.0"
edition = "2021"
publish = false

[dependencies]
anyhow = "1"
async-trait = "0.1"
chrono = "0.4"
clap = { version = "4", features = ["derive"] }
const_format = "0.2"
dashmap = "6"
filetime = "0.2"
fuser = { version = "0.15", default-features = false }
futures = "0.3"
inotify = "0.11"
libc = "0.2"
lru = "0.12"
nix = { version = "0.29", features = ["fs", "poll", "user"] }
rayon = "1"
reqwest = { version = "0.12", default-features = false, features = ["json", "rustls-tls"] }
serde = { version = "1", features = ["derive"] }
serde_json = "1"
serde_yaml = "0.9"
signal-hook = "0.3"
signal-hook-tokio = { version = "0.3", features = ["futures-v0_3"] }
tokio = { version = "1", features = ["full"] }
tracing = "0.1"
tracing-appender = "0.2"
tracing-subscriber = { version = "0.3", features = ["env-filter"] }
urlencoding = "2"
wildmatch = "2"
