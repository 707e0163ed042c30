//! Wear-levelled records in NOR flash for the input modules: device
//! configuration and saved display patterns, kept as append-only logs of
//! checksummed entries, with the flash device modelled byte by byte.
//!
//! Beside the stores: the matrix frame buffer, the command vocabulary, the
//! game of life and the startup animations built on it.

pub mod animations;
pub mod checksum;
pub mod config;
pub mod control;
pub mod display;
pub mod flash;
pub mod game_of_life;
pub mod layout;
pub mod matrix;
pub mod patterns;
pub mod serialnum;
