//! Track metadata as yt-dlp prints it, one field per line.

use std::collections::VecDeque;
use vstd::prelude::*;
use vstd::string::StringExecFns;

use crate::text::{
    lines_of, parse_u64, parse_u64_spec, same_text, split_lines, texts, trim, trim_ws,
};

verus! {

/// A cursor over the lines of a text, handing them out front to back.
pub struct Lines {
    rest: VecDeque<String>,
}

impl View for Lines {
    type V = Seq<Seq<char>>;

    /// The lines not yet handed out.
    closed spec fn view(&self) -> Seq<Seq<char>> {
        texts(self.rest@)
    }
}

/// The first line of `ls`, if any.
pub open spec fn first_line(ls: Seq<Seq<char>>) -> Option<Seq<char>> {
    if ls.len() > 0 {
        Some(ls[0])
    } else {
        None
    }
}

/// The line at position `i` of `ls`, if any.
pub open spec fn line_at(ls: Seq<Seq<char>>, i: int) -> Option<Seq<char>> {
    if 0 <= i < ls.len() {
        Some(ls[i])
    } else {
        None
    }
}

/// `ls` once its first line, if any, has been handed out.
pub open spec fn after_first(ls: Seq<Seq<char>>) -> Seq<Seq<char>> {
    if ls.len() > 0 {
        ls.drop_first()
    } else {
        ls
    }
}

impl Lines {
    /// A cursor positioned before the first line of `text` (lines as `str::lines` splits them).
    pub fn new(text: &str) -> (l: Lines)
        ensures
            l@ == split_lines(text@),
    {
        let mut v = lines_of(text);
        let ghost all = texts(v@);
        let mut rest: VecDeque<String> = VecDeque::new();
        while v.len() > 0
            invariant
                all.len() >= v@.len(),
                texts(v@) == all.take(v@.len() as int),
                texts(rest@) == all.skip(v@.len() as int),
            decreases v@.len(),
        {
            let ghost before = rest@;
            let ghost n = v@.len();
            let line = v.pop().unwrap();
            assert(all[n - 1] == line@) by {
                assert(texts(v@.push(line)) == all.take(n as int));
                assert(texts(v@.push(line))[n - 1] == line@);
                assert(all.take(n as int)[n - 1] == all[n - 1]);
            }
            rest.push_front(line);
            assert(texts(v@) =~= all.take(n - 1));
            assert(texts(rest@) =~= seq![line@] + texts(before));
            assert(all.skip(n - 1) =~= seq![all[n - 1]] + all.skip(n as int));
        }
        assert(all.skip(0) =~= all);
        Lines { rest }
    }

    /// Hands out the next line, if any.
    pub fn next(&mut self) -> (line: Option<String>)
        ensures
            match line {
                Some(l) => first_line(old(self)@) == Some(l@),
                None => first_line(old(self)@) is None,
            },
            final(self)@ == after_first(old(self)@),
    {
        let ghost before = self.rest@;
        let r = self.rest.pop_front();
        proof {
            if before.len() > 0 {
                assert(texts(self.rest@) =~= texts(before).drop_first());
            }
        }
        r
    }
}

/// The contents of an optional string.
pub open spec fn opt_text(o: Option<String>) -> Option<Seq<char>> {
    match o {
        Some(s) => Some(s@),
        None => None,
    }
}

/// What the library knows of a track before it is played.
#[derive(Clone, Debug)]
pub struct TrackMetadata {
    pub artist: Option<String>,
    pub title: Option<String>,
    pub video_title: String,
    /// Length of the track in whole seconds.
    pub duration_secs: u64,
    pub youtube_url: String,
    pub thumbnail_url: String,
}

/// The contents of a [`TrackMetadata`].
pub struct TrackMetadataView {
    pub artist: Option<Seq<char>>,
    pub title: Option<Seq<char>>,
    pub video_title: Seq<char>,
    pub duration_secs: u64,
    pub youtube_url: Seq<char>,
    pub thumbnail_url: Seq<char>,
}

impl View for TrackMetadata {
    type V = TrackMetadataView;

    open spec fn view(&self) -> TrackMetadataView {
        TrackMetadataView {
            artist: opt_text(self.artist),
            title: opt_text(self.title),
            video_title: self.video_title@,
            duration_secs: self.duration_secs,
            youtube_url: self.youtube_url@,
            thumbnail_url: self.thumbnail_url@,
        }
    }
}

/// A required field: the line trimmed, present only when not blank.
pub open spec fn required_spec(line: Option<Seq<char>>) -> Option<Seq<char>> {
    match line {
        Some(l) => if trim_ws(l).len() > 0 {
            Some(trim_ws(l))
        } else {
            None
        },
        None => None,
    }
}

/// An optional field: the line trimmed, absent when blank or `NA`.
pub open spec fn optional_spec(line: Option<Seq<char>>) -> Option<Seq<char>> {
    match line {
        Some(l) => if trim_ws(l).len() > 0 && trim_ws(l) != "NA"@ {
            Some(trim_ws(l))
        } else {
            None
        },
        None => None,
    }
}

/// The metadata that five lines of yt-dlp output describe: title, artist,
/// track name, duration in seconds, thumbnail URL. Title, duration and
/// thumbnail must not be blank; a duration that is not a `u64` counts as 0.
pub open spec fn parse_spec(youtube_url: Seq<char>, ls: Seq<Seq<char>>) -> Option<TrackMetadataView> {
    let video_title = required_spec(line_at(ls, 0));
    let duration = required_spec(line_at(ls, 3));
    let thumbnail_url = required_spec(line_at(ls, 4));
    if video_title is Some && duration is Some && thumbnail_url is Some {
        Some(
            TrackMetadataView {
                artist: optional_spec(line_at(ls, 1)),
                title: optional_spec(line_at(ls, 2)),
                video_title: video_title->0,
                duration_secs: match parse_u64_spec(duration->0) {
                    Some(n) => n,
                    None => 0,
                },
                youtube_url,
                thumbnail_url: thumbnail_url->0,
            },
        )
    } else {
        None
    }
}

/// How many lines parsing takes: it stops after the first missing required field.
pub open spec fn parse_consumed(ls: Seq<Seq<char>>) -> nat {
    if required_spec(line_at(ls, 0)) is None {
        1
    } else if required_spec(line_at(ls, 3)) is None {
        4
    } else {
        5
    }
}

/// `ls` once its first `k` lines (or all of them, if fewer) are handed out.
pub open spec fn drop_lines(ls: Seq<Seq<char>>, k: nat) -> Seq<Seq<char>> {
    if k >= ls.len() {
        Seq::empty()
    } else {
        ls.skip(k as int)
    }
}

proof fn lemma_drop_one_more(ls: Seq<Seq<char>>, k: nat)
    ensures
        after_first(drop_lines(ls, k)) == drop_lines(ls, k + 1),
{
    if k + 1 < ls.len() {
        assert(ls.skip(k as int).drop_first() =~= ls.skip((k + 1) as int));
    } else if k < ls.len() {
        assert(ls.skip(k as int).drop_first() =~= Seq::<Seq<char>>::empty());
    }
}

/// The next line, trimmed, unless it is missing or blank.
pub fn required_field(lines: &mut Lines) -> (field: Option<String>)
    ensures
        opt_text(field) == required_spec(first_line(old(lines)@)),
        final(lines)@ == after_first(old(lines)@),
{
    match lines.next() {
        Some(line) => {
            let t = trim(line.as_str());
            if t.as_str().is_empty() {
                None
            } else {
                Some(t)
            }
        },
        None => None,
    }
}

/// The next line, trimmed, unless it is missing, blank or `NA`.
pub fn optional_field(lines: &mut Lines) -> (field: Option<String>)
    ensures
        opt_text(field) == optional_spec(first_line(old(lines)@)),
        final(lines)@ == after_first(old(lines)@),
{
    match lines.next() {
        Some(line) => {
            let t = trim(line.as_str());
            if t.as_str().is_empty() || same_text(t.as_str(), "NA") {
                None
            } else {
                Some(t)
            }
        },
        None => None,
    }
}

impl TrackMetadata {
    /// Reads the metadata of `youtube_url` from the next five lines.
    pub fn parse(youtube_url: &str, lines: &mut Lines) -> (m: Option<TrackMetadata>)
        ensures
            match m {
                Some(m) => parse_spec(youtube_url@, old(lines)@) == Some(m@),
                None => parse_spec(youtube_url@, old(lines)@) is None,
            },
            final(lines)@ == drop_lines(old(lines)@, parse_consumed(old(lines)@)),
    {
        let ghost ls = lines@;
        proof {
            assert(drop_lines(ls, 0) =~= ls);
            lemma_drop_one_more(ls, 0);
            lemma_drop_one_more(ls, 1);
            lemma_drop_one_more(ls, 2);
            lemma_drop_one_more(ls, 3);
            lemma_drop_one_more(ls, 4);
            assert(first_line(drop_lines(ls, 1)) == line_at(ls, 1));
            assert(first_line(drop_lines(ls, 2)) == line_at(ls, 2));
            assert(first_line(drop_lines(ls, 3)) == line_at(ls, 3));
            assert(first_line(drop_lines(ls, 4)) == line_at(ls, 4));
        }
        let video_title = match required_field(lines) {
            Some(v) => v,
            None => {
                return None;
            },
        };
        let artist = optional_field(lines);
        let title = optional_field(lines);
        let duration = match required_field(lines) {
            Some(d) => d,
            None => {
                return None;
            },
        };
        let duration_secs = match parse_u64(duration.as_str()) {
            Some(n) => n,
            None => 0,
        };
        let thumbnail_url = match required_field(lines) {
            Some(t) => t,
            None => {
                return None;
            },
        };
        Some(
            TrackMetadata {
                artist,
                title,
                video_title,
                duration_secs,
                youtube_url: youtube_url.to_owned(),
                thumbnail_url,
            },
        )
    }
}

/// How a track is shown: `artist - title` when both are known, else the video title.
pub open spec fn display_spec(m: TrackMetadataView) -> Seq<char> {
    match (m.artist, m.title) {
        (Some(artist), Some(title)) => artist + " - "@ + title,
        _ => m.video_title,
    }
}

impl TrackMetadata {
    /// The track as it is shown to listeners.
    pub fn display(&self) -> (s: String)
        ensures
            s@ == display_spec(self@),
    {
        match (&self.artist, &self.title) {
            (Some(artist), Some(title)) => {
                let mut s = artist.clone();
                s.append(" - ");
                s.append(title.as_str());
                s
            },
            _ => self.video_title.clone(),
        }
    }
}

/// A resolved track: its metadata and the URL the audio is fetched from.
#[derive(Clone, Debug)]
pub struct Track {
    pub metadata: TrackMetadata,
    pub stream_url: String,
}

/// The contents of a [`Track`].
pub struct TrackView {
    pub metadata: TrackMetadataView,
    pub stream_url: Seq<char>,
}

impl View for Track {
    type V = TrackView;

    open spec fn view(&self) -> TrackView {
        TrackView { metadata: self.metadata@, stream_url: self.stream_url@ }
    }
}

impl Track {
    /// The track as it is shown to listeners (as its metadata is).
    pub fn display(&self) -> (s: String)
        ensures
            s@ == display_spec(self.metadata@),
    {
        self.metadata.display()
    }
}

/// Each field of parsed metadata comes from its own line of yt-dlp output.
/// When the title (line 1), duration (line 4) and thumbnail (line 5) lines
/// are present and not blank, parsing succeeds and: the video title,
/// duration text and thumbnail URL are those lines trimmed; the artist is
/// line 2 trimmed and the track title is line 3 trimmed, each absent exactly
/// when its own line is blank or `NA`, whatever the other line holds; the
/// duration is the number that line spells, or 0 when it is not a `u64`; the
/// URL is the one asked about. When any of those three lines is missing or
/// blank, parsing fails.
pub proof fn law_parse_reads_each_field_from_its_line(youtube_url: Seq<char>, ls: Seq<Seq<char>>)
    ensures
        ls.len() >= 5 && trim_ws(ls[0]).len() > 0 && trim_ws(ls[3]).len() > 0 && trim_ws(ls[4]).len()
            > 0 ==> parse_spec(youtube_url, ls) == Some(
            TrackMetadataView {
                artist: if trim_ws(ls[1]).len() > 0 && trim_ws(ls[1]) != "NA"@ {
                    Some(trim_ws(ls[1]))
                } else {
                    None
                },
                title: if trim_ws(ls[2]).len() > 0 && trim_ws(ls[2]) != "NA"@ {
                    Some(trim_ws(ls[2]))
                } else {
                    None
                },
                video_title: trim_ws(ls[0]),
                duration_secs: match parse_u64_spec(trim_ws(ls[3])) {
                    Some(n) => n,
                    None => 0,
                },
                youtube_url,
                thumbnail_url: trim_ws(ls[4]),
            },
        ),
        !(ls.len() >= 5 && trim_ws(ls[0]).len() > 0 && trim_ws(ls[3]).len() > 0 && trim_ws(
            ls[4],
        ).len() > 0) ==> parse_spec(youtube_url, ls) is None,
{
}

/// How a track is named: `artist - title` when both are known; otherwise,
/// whichever one is missing, the video title.
pub proof fn law_display_name(m: TrackMetadataView)
    ensures
        m.artist is None || m.title is None ==> display_spec(m) == m.video_title,
        m.artist matches Some(a) ==> (m.title matches Some(t) ==> display_spec(m) == a + " - "@ + t),
{
}

} // verus!
