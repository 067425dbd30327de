//! Joining a server: finding its radio voice channel.

use vstd::prelude::*;

use crate::text::same_text;

verus! {

/// The name of the voice channel the radio plays in.
pub const CHANNEL_NAME: &'static str = "Tahti Radio";

/// What the library needs to know of a server channel.
pub struct ChannelInfo {
    pub id: u64,
    pub is_voice: bool,
    pub name: String,
}

/// Whether `c` is a voice channel named [`CHANNEL_NAME`].
pub open spec fn is_radio_channel(c: ChannelInfo) -> bool {
    c.is_voice && c.name@ == CHANNEL_NAME@
}

/// The id of the first radio channel among `channels`, if there is one.
pub fn find_radio_channel(channels: &Vec<ChannelInfo>) -> (id: Option<u64>)
    ensures
        id is None <==> forall|i: int| 0 <= i < channels@.len() ==> !is_radio_channel(#[trigger] channels@[i]),
        id matches Some(id) ==> exists|i: int|
            0 <= i < channels@.len() && is_radio_channel(#[trigger] channels@[i]) && channels@[i].id == id
                && forall|j: int| 0 <= j < i ==> !is_radio_channel(#[trigger] channels@[j]),
{
    let mut i: usize = 0;
    while i < channels.len()
        invariant
            i <= channels@.len(),
            forall|j: int| 0 <= j < i ==> !is_radio_channel(#[trigger] channels@[j]),
        decreases channels@.len() - i,
    {
        let c = &channels[i];
        if c.is_voice && same_text(c.name.as_str(), CHANNEL_NAME) {
            assert(is_radio_channel(channels@[i as int]));
            return Some(c.id);
        }
        i = i + 1;
    }
    None
}

} // verus!
