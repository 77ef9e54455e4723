//! Input: terminal events to commands.

pub mod keymap;
pub mod keymap_laws;
