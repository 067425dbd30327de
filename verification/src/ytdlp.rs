//! The yt-dlp invocation: the arguments it is given and how its exit status
//! and output become a result.

use vstd::prelude::*;
use vstd::string::StringExecFns;
use vstd::utf8::{decode_utf8, valid_utf8};

use crate::text::{texts, trim, trim_ws};

verus! {

/// std's `std::io::Error`, carried unopened inside the error values of the
/// library; nothing is claimed about its contents.
#[verifier::external_type_specification]
#[verifier::external_body]
pub struct ExIoError(std::io::Error);

/// Why yt-dlp gave no usable output.
#[derive(Debug)]
pub enum YtdlpError {
    /// The process could not be started.
    Spawn(std::io::Error),
    /// The process exited unsuccessfully; holds its trimmed standard error.
    Failed(String),
}

/// The text that `String::from_utf8_lossy` makes of `bytes`.
pub uninterp spec fn utf8_lossy(bytes: Seq<u8>) -> Seq<char>;

/// std's `String::from_utf8_lossy`, owned. Claims the result is the named
/// decoding of the bytes, and that valid UTF-8 decodes to its own characters.
/// How invalid sequences are replaced is left unsaid.
#[verifier::external_body]
fn decode_lossy(bytes: &[u8]) -> (s: String)
    ensures
        s@ == utf8_lossy(bytes@),
        valid_utf8(bytes@) ==> s@ == decode_utf8(bytes@),
{
    String::from_utf8_lossy(bytes).into_owned()
}

/// The arguments yt-dlp is run with: best audio format, then one `--print`
/// per metadata field (title, artist, track, duration, thumbnail), `-g` when
/// the stream URL is wanted too, and last the URL itself.
pub open spec fn ytdlp_args_spec(url: Seq<char>, include_stream_url: bool) -> Seq<Seq<char>> {
    seq![
        "-f"@,
        "bestaudio"@,
        "--print"@,
        "%(title)s"@,
        "--print"@,
        "%(artist)s"@,
        "--print"@,
        "%(track)s"@,
        "--print"@,
        "%(duration)s"@,
        "--print"@,
        "%(thumbnail)s"@,
    ] + (if include_stream_url {
        seq!["-g"@]
    } else {
        seq![]
    }) + seq![url]
}

fn push_arg(args: &mut Vec<String>, a: &str)
    ensures
        texts(final(args)@) == texts(old(args)@).push(a@),
{
    let ghost before = args@;
    args.push(String::from_str(a));
    assert(texts(args@) =~= texts(before).push(a@));
}

/// The command-line arguments for fetching the metadata of `url`, and its
/// stream URL too when `include_stream_url` holds.
pub fn ytdlp_args(url: &str, include_stream_url: bool) -> (args: Vec<String>)
    ensures
        texts(args@) == ytdlp_args_spec(url@, include_stream_url),
{
    let mut args: Vec<String> = Vec::new();
    push_arg(&mut args, "-f");
    push_arg(&mut args, "bestaudio");
    push_arg(&mut args, "--print");
    push_arg(&mut args, "%(title)s");
    push_arg(&mut args, "--print");
    push_arg(&mut args, "%(artist)s");
    push_arg(&mut args, "--print");
    push_arg(&mut args, "%(track)s");
    push_arg(&mut args, "--print");
    push_arg(&mut args, "%(duration)s");
    push_arg(&mut args, "--print");
    push_arg(&mut args, "%(thumbnail)s");
    if include_stream_url {
        push_arg(&mut args, "-g");
    }
    push_arg(&mut args, url);
    assert(texts(args@) =~= ytdlp_args_spec(url@, include_stream_url));
    args
}

/// What a finished yt-dlp run amounts to: on success its standard output as
/// text, otherwise a failure carrying its trimmed standard error.
pub fn collect_output(success: bool, stdout: &[u8], stderr: &[u8]) -> (r: Result<String, YtdlpError>)
    ensures
        success ==> (r matches Ok(out) && out@ == utf8_lossy(stdout@)),
        !success ==> (r matches Err(YtdlpError::Failed(msg)) && msg@ == trim_ws(utf8_lossy(stderr@))),
{
    if !success {
        let err = decode_lossy(stderr);
        return Err(YtdlpError::Failed(trim(err.as_str())));
    }
    Ok(decode_lossy(stdout))
}

} // verus!
