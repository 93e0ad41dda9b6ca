[package]
name = "briefs_core"
version = "0.1.0"
edition = "2021"
publish = false

[dependencies]
sqlite = "*"
textwrap = "*"
rand = "0.8"
serde = { version = "*", features = ["derive"] }
serde_json = "*"
tokio = { version = "*", features = ["full"] }
tokio-rustls = "*"
rustls = "*"
webpki-roots = "*"
clap = { version = "*", features = ["derive"] }
home = "*"
regex = "*"
anyhow = "*"
thiserror = "*"
