//! Verified core of a desktop pet: animation chain, configuration format,
//! pixel work for layered windows and menu command decoding.

pub mod rng;
pub mod assets;
pub mod catalog;
pub mod text;
pub mod config;
pub mod config_proof;
pub mod pixels;
pub mod pet;
pub mod wide;
pub mod tray;
pub mod autostart;
pub mod role;
pub mod menu;
pub mod geometry;
