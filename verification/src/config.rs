//! The bot's settings.

use vstd::prelude::*;

verus! {

/// Discord credentials the bot runs with.
pub struct Config {
    pub discord_token: String,
    pub discord_client_id: u64,
}

} // verus!
