[package]
name = "qn_changelog"
version = "0.1.0"
edition = "2021"
publish = false

[dependencies]
regex = "=1.13.1"
chrono = "=0.4.45"
serde = { version = "1", features = ["derive"] }
serde_json = "=1.0.154"
structopt = "=0.3.26"
dirs = "=7.0.0"
atomicwrites = "=0.4.4"
octocrab = "=0.47.1"
tokio = { version = "1", features = ["rt-multi-thread", "macros"] }
