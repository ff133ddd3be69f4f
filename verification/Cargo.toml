[package]
name = "cullrs"
version = "0.1.0"
edition = "2021"
publish = false

[dependencies]
anyhow = "1"
blake3 = "1"
chrono = { version = "0.4", features = ["serde"] }
clap = { version = "4", features = ["derive"] }
diesel = { version = "2", features = ["sqlite", "r2d2"] }
diesel_migrations = "2"
dirs = "5"
glob = "0.3"
image = { version = "0.25", default-features = false, features = ["jpeg", "png", "tiff", "webp", "gif", "bmp"] }
image_hasher = "*"
indicatif = "0.17"
kamadak-exif = "0.5"
log = "0.4"
md5 = "0.7"
memmap2 = "0.9"
num_cpus = "1"
rayon = "1"
rusqlite = { version = "*", features = ["bundled"] }
serde = { version = "1", features = ["derive"] }
serde_json = "1"
sha2 = "0.10"
sled = "0.34"
thiserror = "1"
tokio = { version = "1", features = ["full"] }
uuid = { version = "1", features = ["v4"] }
walkdir = "2"

[dev-dependencies]
tempfile = "3"
