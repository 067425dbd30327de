//! The fallback playlist: one track URL per line.

use vstd::prelude::*;

use crate::text::{lines_of, split_lines, texts};

verus! {

/// Why no playlist could be made.
#[derive(Debug, PartialEq, Eq, Structural)]
pub enum PlaylistError {
    /// The track list has no lines.
    Empty,
}

/// The playlist that the track list `tracks` holds: its lines, in order.
/// A list without lines is refused.
pub fn load(tracks: &str) -> (r: Result<Vec<String>, PlaylistError>)
    ensures
        split_lines(tracks@).len() == 0 ==> r == Err::<Vec<String>, PlaylistError>(PlaylistError::Empty),
        split_lines(tracks@).len() > 0 ==> (r matches Ok(v) && texts(v@) == split_lines(tracks@)),
{
    let tracks = lines_of(tracks);
    if tracks.len() == 0 {
        return Err(PlaylistError::Empty);
    }
    Ok(tracks)
}

} // verus!
