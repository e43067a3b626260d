//! Duration cache and playback state for a terminal audio browser.
//!
//! The crate holds the rules of the browser; reading directories, decoding
//! audio and driving the output device are left to the program around it.

pub mod timespan;
pub mod codec;
pub mod paths;
pub mod store;
pub mod listing;
pub mod app;
pub mod player;
pub mod display;
