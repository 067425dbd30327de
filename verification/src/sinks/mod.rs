//! Where the broadcast is delivered.

pub mod discord;
