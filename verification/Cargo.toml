[package]
name = "wallpaperengine_player"
version = "0.1.0"
edition = "2021"
publish = false

[dependencies]
chrono = "0.4"
clap = "4"
config = { version = "0.14", default-features = false, features = ["toml"] }
fern = "0.6"
log = "0.4"
nix = "0.29"
notify = "6"
rand = "0.8"
regex = "1"
rusqlite = { version = "0.31", features = ["bundled"] }
serde = { version = "1", features = ["derive"] }
serde_json = "1"
