//! Keyboard activity overlay: per-key transition history and the
//! reconstruction of past press intervals into scrolling blocks.

pub mod config;
pub mod key;
pub mod timeline;
pub mod blocks;
