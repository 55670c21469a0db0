[package]
name = "multihangman"
version = "0.1.0"
edition = "2021"
publish = false

[dependencies]
unicode_categories = "0.1"
unicode-segmentation = "1"
serde = { version = "1", features = ["derive"] }
bincode = "1"
toml = "0.5"
structopt = "0.3"
lazy_static = "1"
raylib = "3.7"
diesel = { version = "1.4", features = ["postgres"] }
diesel-derive-enum = { version = "1", features = ["postgres"] }
keyring = "0.10"
argonautica = "0.2"
