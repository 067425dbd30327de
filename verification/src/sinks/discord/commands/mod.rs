//! Slash commands.

pub mod play;
