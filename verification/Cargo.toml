[package]
name = "teamsearch"
version = "0.1.0"
edition = "2021"
publish = false

[dependencies]
globset = "=0.4.20"
grep-regex = "=0.1.14"
ignore = "*"
grep-matcher = "=0.1.9"
rayon = "=1.12.0"
path-absolutize = "=4.0.1"
clap = { version = "*", features = ["derive"] }
serde = { version = "*", features = ["derive"] }
serde_json = "*"
anyhow = "*"
wild = "*"
argfile = "*"
log = "*"
