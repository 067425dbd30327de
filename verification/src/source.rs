//! Turning yt-dlp output into tracks.

use vstd::prelude::*;

use crate::text::split_lines;
use crate::track::{
    drop_lines, parse_spec, Lines, Track, TrackMetadata, TrackView,
};
use crate::ytdlp::YtdlpError;

verus! {

/// Why a URL could not be resolved to a track.
#[derive(Debug)]
pub enum SourceError {
    /// yt-dlp could not be run or failed.
    Ytdlp(YtdlpError),
    /// yt-dlp's output lacked a required line.
    MissingFields,
}

/// The track that yt-dlp output `out` describes: the metadata of its first
/// five lines, then the stream URL on the next line, taken as it stands.
pub open spec fn resolve_spec(youtube_url: Seq<char>, out: Seq<char>) -> Option<TrackView> {
    let ls = split_lines(out);
    match parse_spec(youtube_url, ls) {
        Some(m) => {
            let rest = drop_lines(ls, 5);
            if rest.len() > 0 {
                Some(TrackView { metadata: m, stream_url: rest[0] })
            } else {
                None
            }
        },
        None => None,
    }
}

/// Resolves `youtube_url` to a playable track from the result of running
/// yt-dlp for its metadata and stream URL.
pub fn resolve(youtube_url: &str, fetched: Result<String, YtdlpError>) -> (r: Result<
    Track,
    SourceError,
>)
    ensures
        match fetched {
            Err(e) => r == Err::<Track, SourceError>(SourceError::Ytdlp(e)),
            Ok(out) => match resolve_spec(youtube_url@, out@) {
                Some(t) => r matches Ok(track) && track@ == t,
                None => r matches Err(SourceError::MissingFields),
            },
        },
{
    let output = match fetched {
        Ok(out) => out,
        Err(e) => {
            return Err(SourceError::Ytdlp(e));
        },
    };
    let mut lines = Lines::new(output.as_str());
    let metadata = match TrackMetadata::parse(youtube_url, &mut lines) {
        Some(m) => m,
        None => {
            return Err(SourceError::MissingFields);
        },
    };
    match lines.next() {
        Some(stream_url) => Ok(Track { metadata, stream_url }),
        None => Err(SourceError::MissingFields),
    }
}

/// Resolves `youtube_url` to its metadata from the result of running yt-dlp
/// for the metadata alone.
pub fn resolve_metadata(youtube_url: &str, fetched: Result<String, YtdlpError>) -> (r: Result<
    TrackMetadata,
    SourceError,
>)
    ensures
        match fetched {
            Err(e) => r == Err::<TrackMetadata, SourceError>(SourceError::Ytdlp(e)),
            Ok(out) => match parse_spec(youtube_url@, split_lines(out@)) {
                Some(m) => r matches Ok(meta) && meta@ == m,
                None => r matches Err(SourceError::MissingFields),
            },
        },
{
    let output = match fetched {
        Ok(out) => out,
        Err(e) => {
            return Err(SourceError::Ytdlp(e));
        },
    };
    let mut lines = Lines::new(output.as_str());
    match TrackMetadata::parse(youtube_url, &mut lines) {
        Some(m) => Ok(m),
        None => Err(SourceError::MissingFields),
    }
}

/// A track resolved from yt-dlp output carries the metadata that resolving
/// the metadata alone reads from the same output.
pub proof fn law_resolved_track_has_resolved_metadata(youtube_url: Seq<char>, out: Seq<char>)
    ensures
        resolve_spec(youtube_url, out) matches Some(t) ==> parse_spec(youtube_url, split_lines(out))
            == Some(t.metadata),
{
}

/// Resolving succeeds exactly when the metadata parses and a sixth line
/// follows it; the track is then that metadata with the sixth line, as it
/// stands, for its stream URL.
pub proof fn law_resolve_succeeds_exactly_with_metadata_and_stream_line(
    youtube_url: Seq<char>,
    out: Seq<char>,
)
    ensures
        parse_spec(youtube_url, split_lines(out)) matches Some(m) ==> (split_lines(out).len() > 5
            ==> resolve_spec(youtube_url, out) == Some(
            TrackView { metadata: m, stream_url: split_lines(out)[5] },
        )),
        parse_spec(youtube_url, split_lines(out)) is None || split_lines(out).len() <= 5
            ==> resolve_spec(youtube_url, out) is None,
{
    let ls = split_lines(out);
    if ls.len() > 5 {
        assert(ls.skip(5)[0] == ls[5]);
    }
}

} // verus!
