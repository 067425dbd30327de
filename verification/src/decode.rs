//! Decoding a stream URL to raw PCM with ffmpeg: its arguments and errors.

use vstd::prelude::*;
use vstd::string::StringExecFns;

use crate::text::texts;

verus! {

/// Why the decoder could not be started.
#[derive(Debug)]
pub enum DecodeError {
    /// ffmpeg could not be spawned.
    Spawn(std::io::Error),
}

/// The arguments ffmpeg is run with: no stdin, input `url`, 32-bit float
/// little-endian samples at 48 kHz in stereo, errors only, output to stdout.
pub open spec fn ffmpeg_args_spec(url: Seq<char>) -> Seq<Seq<char>> {
    seq![
        "-nostdin"@,
        "-i"@,
        url,
        "-f"@,
        "f32le"@,
        "-ar"@,
        "48000"@,
        "-ac"@,
        "2"@,
        "-loglevel"@,
        "error"@,
        "pipe:1"@,
    ]
}

/// The command-line arguments for decoding `url`.
pub fn ffmpeg_args(url: &str) -> (args: Vec<String>)
    ensures
        texts(args@) == ffmpeg_args_spec(url@),
{
    let args = vec![
        String::from_str("-nostdin"),
        String::from_str("-i"),
        String::from_str(url),
        String::from_str("-f"),
        String::from_str("f32le"),
        String::from_str("-ar"),
        String::from_str("48000"),
        String::from_str("-ac"),
        String::from_str("2"),
        String::from_str("-loglevel"),
        String::from_str("error"),
        String::from_str("pipe:1"),
    ];
    assert(texts(args@) =~= ffmpeg_args_spec(url@));
    args
}

} // verus!
