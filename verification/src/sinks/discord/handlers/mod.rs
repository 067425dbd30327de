//! Gateway event handlers.

pub mod guild_create;
pub mod interaction;
