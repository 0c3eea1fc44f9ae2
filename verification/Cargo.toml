[package]
name = "mame_coalesce"
version = "0.1.0"
edition = "2021"
publish = false

[dependencies]
sha1 = "=0.11.0"
crc32fast = "=1.5.2"
xxhash-rust = { version = "=0.8.19", features = ["xxh3"] }
infer = "=0.22.0"
zip = { version = "=8.6.0", default-features = false, features = ["deflate"] }
walkdir = "=2.5.0"
rayon = "=1.12.0"
clap = { version = "=4.6.7", features = ["derive"] }
quick-xml = { version = "=0.42.0", features = ["serialize"] }
serde = { version = "=1.0.229", features = ["derive"] }
