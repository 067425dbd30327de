//! Delivery to Discord voice channels, and the slash commands.

pub mod commands;
pub mod handlers;
