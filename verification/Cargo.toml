[package]
name = "tix"
version = "0.1.0"
edition = "2021"
publish = false

[dependencies]
anyhow = "=1.0.104"
chrono = "=0.4.45"
clap = { version = "=4.6.7", features = ["derive"] }
clap_complete = "=4.6.11"
clap-verbosity-flag = "=3.0.4"
dialoguer = "=0.11.0"
directories = "=6.0.0"
env_logger = "=0.11.11"
flate2 = "=1.1.10"
git2 = { version = "=0.21.0", features = ["cred"] }
home = "=0.5.12"
log = "=0.4.34"
semver = "=1.0.28"
serde = { version = "=1.0.229", features = ["derive"] }
serde_json = "=1.0.154"
tar = "=0.4.46"
tempfile = "=3.27.0"
toml = "=0.8.23"
ureq = { version = "=2.12.1", features = ["json"] }
zip = "=9.1.0"
