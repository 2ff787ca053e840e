//! A player for linux-wallpaperengine: it plays wallpaper engine's playlists,
//! sorts the wallpapers of its folders, and takes orders from `control`.
//! This crate holds the player's logic, verified with Verus.

pub mod app_config;
pub mod check;
pub mod command;
pub mod control;
pub mod engine_config;
pub mod error;
pub mod history;
pub mod json;
pub mod play;
pub mod project;
pub mod settings;
pub mod text;
pub mod util;
