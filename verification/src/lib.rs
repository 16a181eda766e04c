//! The decisions behind an animated desktop wallpaper.

pub mod background;
pub mod binary64;
pub mod bridge;
pub mod choices;
pub mod desktop;
pub mod effects;
pub mod entries;
pub mod geometry;
pub mod json;
pub mod layout;
pub mod menu;
pub mod modules;
pub mod region;
pub mod render;
pub mod settings;
pub mod stats;
pub mod supervisor;
pub mod text;
pub mod tray;
pub mod wallpaper;
pub mod wide;
pub mod windows;
