//! Verified core of the aura wallpaper manager: configuration decoding and
//! rendering, wallpaper rotation, source bookkeeping, and the small text
//! formats the application reads and writes.

pub mod cli;
pub mod config;
pub mod config_load;
pub mod diagnostics;
pub mod display;
pub mod document;
pub mod duration;
pub mod installer;
pub mod paths;
pub mod pipeline;
pub mod rotation;
pub mod session;
pub mod settings;
pub mod sources;
pub mod state;
pub mod text;
pub mod tray;
pub mod updater;
pub mod urls;
pub mod version;
