[package]
name = "bgrun"
version = "0.1.0"
edition = "2021"
publish = false

[dependencies]
anyhow = "1"
async-trait = "0.1"
chrono = "0.4"
clap = { version = "4", features = ["derive"] }
clap_mangen = "0.2"
crossterm = { version = "0.28", features = ["event-stream"] }
directories = "5"
futures-util = "0.3"
inquire = "0.7"
libc = "0.2"
nix = { version = "0.29", features = ["signal", "process", "user"] }
once_cell = "1"
portable-pty = "0.8"
regex = "1"
reqwest = { version = "0.12", default-features = false }
schemars = "0.8"
serde = { version = "1", features = ["derive"] }
serde_json = "1"
strip-ansi-escapes = "0.2"
sysinfo = "0.32"
tokio = { version = "1", features = ["full"] }
tokio-util = "0.7"
toml = "0.8"
tracing = "0.1"
tracing-subscriber = { version = "0.3", features = ["env-filter"] }
uuid = { version = "1", features = ["v4"] }
