[package]
name = "pallet"
version = "0.5.0"
edition = "2021"
publish = false

[dependencies]
sled = "0.34"
tantivy = "*"
bincode = "1.3"
serde = { version = "1", features = ["derive"] }
rayon = "1"
thiserror = "1"

[dev-dependencies]
tempfile = "3"
