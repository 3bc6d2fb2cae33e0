[package]
name = "fixit"
version = "0.9.0"
edition = "2021"
publish = false

[dependencies]
anyhow = "1"
clap = { version = "4", features = ["derive", "env"] }
ctrlc = "3"
dialoguer = "0.11"
dirs = "5"
env_logger = "0.11"
hex = "0.4"
log = "0.4"
rayon = "1"
regex = "1"
semver = { version = "1", features = ["serde"] }
serde = { version = "1", features = ["derive"] }
serde_json = "1"
sha2 = "0.10"
strsim = "0.11"
tempfile = "3"
thiserror = "1"
ureq = { version = "2", features = ["json"] }
