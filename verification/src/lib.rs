//! Verified core of the cavaii audio-visualizer overlay and its daemon.
pub mod text;
pub mod number;
pub mod pactl;
pub mod process;
pub mod daemon;
pub mod config;
pub mod values;
pub mod settings;
pub mod colors;
pub mod overrides;
pub mod paths;
pub mod engine;
pub mod overlay;
pub mod bench;
pub mod laws;
pub mod readings;
