[package]
name = "thorium-reactor"
version = "1.0.0"
edition = "2021"
publish = false

[dependencies]
async-trait = "0.1"
base64 = "0.22"
chrono = "0.4"
clap = { version = "4", features = ["derive"] }
gethostname = "1"
http = "1"
kanal = "0.1"
quick_cache = "0.6"
rand = "0.9"
rustix = { version = "1", features = ["process"] }
semver = "1"
serde = { version = "1", features = ["derive"] }
serde_json = "1"
serde_norway = "0.9"
sigma-rust = "*"
sysinfo = "*"
tempfile = "3"
thiserror = "2"
tokio = { version = "1", features = ["full"] }
tracing = "0.1"
virt = "0.4"
