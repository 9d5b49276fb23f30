[package]
name = "libsnow"
version = "0.1.0"
edition = "2021"
publish = false

[dependencies]
anyhow = "1"
clap = { version = "4", features = ["derive"] }
lazy_static = "1"
log = "0.4"
nix-editor = "*"
pretty_env_logger = "*"
quick-xml = { version = "*", features = ["serialize"] }
rayon = "1"
reqwest = { version = "*", features = ["brotli", "json"] }
rusqlite = { version = "*", features = ["bundled"] }
serde = { version = "1", features = ["derive"] }
serde_json = "1"
signal-hook = "*"
tantivy = "*"
tokio = { version = "1", features = ["full"] }
toml = "*"
