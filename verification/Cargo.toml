[package]
name = "ghost2zola"
version = "0.1.0"
edition = "2021"
publish = false

[dependencies]
anyhow = "1"
bzip2 = "*"
chrono = { version = "0.4", features = ["serde"] }
libflate = "*"
log = "0.4"
path-absolutize = "3"
pretty_env_logger = "*"
regex = "1"
rusqlite = { version = "*", features = ["bundled", "chrono"] }
serde = { version = "1", features = ["derive"] }
serde_json = "1"
slugify = "*"
structopt = "0.3"
tar = "0.4"
tempfile = "3"
thiserror = "*"
toml = "*"
tree_magic = "*"
uuid = { version = "1", features = ["v4"] }
