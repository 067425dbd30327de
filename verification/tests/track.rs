use tahti_radio::source::{resolve, resolve_metadata, SourceError};
use tahti_radio::track::{optional_field, required_field, Lines, Track, TrackMetadata};
use tahti_radio::ytdlp::YtdlpError;

const URL: &str = "https://youtube.com/watch?v=abc";

#[test]
fn lines_follow_str_lines() {
    for text in ["", "a", "a\n", "a\r\nb", "a\n\nb\n", "\n", "x\r", "a\rb\nc\r\n"] {
        let mut lines = Lines::new(text);
        let mut got = Vec::new();
        while let Some(l) = lines.next() {
            got.push(l);
        }
        let expected: Vec<String> = text.lines().map(str::to_owned).collect();
        assert_eq!(got, expected, "lines of {text:?}");
    }
}

#[test]
fn parse_reads_all_fields() {
    let mut lines = Lines::new("  Video  \nArtist\nSong\n215\nhttps://img/x.jpg\nrest");
    let m = TrackMetadata::parse(URL, &mut lines).unwrap();
    assert_eq!(m.video_title, "Video");
    assert_eq!(m.artist.as_deref(), Some("Artist"));
    assert_eq!(m.title.as_deref(), Some("Song"));
    assert_eq!(m.duration_secs, 215);
    assert_eq!(m.youtube_url, URL);
    assert_eq!(m.thumbnail_url, "https://img/x.jpg");
    assert_eq!(lines.next().as_deref(), Some("rest"));
    assert_eq!(lines.next(), None);
}

#[test]
fn parse_treats_na_and_blank_as_absent() {
    let mut lines = Lines::new("Video\nNA\n   \n10\nthumb");
    let m = TrackMetadata::parse(URL, &mut lines).unwrap();
    assert_eq!(m.artist, None);
    assert_eq!(m.title, None);
    assert_eq!(m.display(), "Video");
}

#[test]
fn parse_unparsable_duration_is_zero() {
    for d in ["NA", "12.5", "-3", "99999999999999999999", "+"] {
        let text = format!("V\nA\nT\n{d}\nthumb");
        let m = TrackMetadata::parse(URL, &mut Lines::new(&text)).unwrap();
        assert_eq!(m.duration_secs, 0, "duration {d:?}");
    }
    let m = TrackMetadata::parse(URL, &mut Lines::new("V\nA\nT\n+7\nthumb")).unwrap();
    assert_eq!(m.duration_secs, 7);
    let m = TrackMetadata::parse(URL, &mut Lines::new("V\nA\nT\n18446744073709551615\nthumb")).unwrap();
    assert_eq!(m.duration_secs, u64::MAX);
}

#[test]
fn parse_fails_on_missing_required_fields() {
    assert!(TrackMetadata::parse(URL, &mut Lines::new("")).is_none());
    let mut lines = Lines::new(" \nA\nT\n1\nthumb");
    assert!(TrackMetadata::parse(URL, &mut lines).is_none());
    assert_eq!(lines.next().as_deref(), Some("A"));
    let mut lines = Lines::new("V\nA\nT\n\nthumb");
    assert!(TrackMetadata::parse(URL, &mut lines).is_none());
    assert_eq!(lines.next().as_deref(), Some("thumb"));
    assert!(TrackMetadata::parse(URL, &mut Lines::new("V\nA\nT\n1\n  ")).is_none());
    assert!(TrackMetadata::parse(URL, &mut Lines::new("V\nA\nT\n1")).is_none());
}

#[test]
fn field_readers_trim_and_filter() {
    let mut lines = Lines::new(" x \nNA\n\t\n NA \n");
    assert_eq!(required_field(&mut lines).as_deref(), Some("x"));
    assert_eq!(optional_field(&mut lines), None);
    assert_eq!(required_field(&mut lines), None);
    assert_eq!(optional_field(&mut lines), None);
    assert_eq!(required_field(&mut lines), None);
}

#[test]
fn required_field_keeps_na() {
    let mut lines = Lines::new("NA");
    assert_eq!(required_field(&mut lines).as_deref(), Some("NA"));
}

#[test]
fn display_uses_artist_and_title_only_together() {
    let mut m = TrackMetadata::parse(URL, &mut Lines::new("Video\nArtist\nNA\n1\nthumb")).unwrap();
    assert_eq!(m.display(), "Video");
    m.title = Some("Song".to_owned());
    assert_eq!(m.display(), "Artist - Song");
    let t = Track { metadata: m, stream_url: "s".to_owned() };
    assert_eq!(t.display(), "Artist - Song");
}

#[test]
fn resolve_takes_stream_url_from_sixth_line() {
    let out = "Video\nArtist\nSong\n60\nthumb\n https://stream \n".to_owned();
    let t = resolve(URL, Ok(out)).unwrap();
    assert_eq!(t.stream_url, " https://stream ");
    assert_eq!(t.metadata.video_title, "Video");
    assert_eq!(t.metadata.duration_secs, 60);
}

#[test]
fn resolve_reports_missing_stream_url() {
    let out = "Video\nArtist\nSong\n60\nthumb\n".to_owned();
    assert!(matches!(resolve(URL, Ok(out)), Err(SourceError::MissingFields)));
    assert!(matches!(resolve(URL, Ok(String::new())), Err(SourceError::MissingFields)));
}

#[test]
fn resolve_passes_on_ytdlp_failure() {
    let r = resolve(URL, Err(YtdlpError::Failed("boom".to_owned())));
    match r {
        Err(SourceError::Ytdlp(YtdlpError::Failed(msg))) => assert_eq!(msg, "boom"),
        _ => panic!("expected the yt-dlp failure"),
    }
    let r = resolve_metadata(URL, Err(YtdlpError::Failed("bad".to_owned())));
    assert!(matches!(r, Err(SourceError::Ytdlp(YtdlpError::Failed(_)))));
}

#[test]
fn resolve_metadata_ignores_stream_url() {
    let m = resolve_metadata(URL, Ok("Video\nNA\nNA\n5\nthumb".to_owned())).unwrap();
    assert_eq!(m.video_title, "Video");
    assert_eq!(m.duration_secs, 5);
    assert!(matches!(
        resolve_metadata(URL, Ok("Video\nNA\nNA\n5\n".to_owned())),
        Err(SourceError::MissingFields)
    ));
}

#[test]
fn resolved_track_metadata_matches_metadata_alone() {
    let out = "Video\nArtist\nSong\n60\nthumb\nstream";
    let t = resolve(URL, Ok(out.to_owned())).unwrap();
    let m = resolve_metadata(URL, Ok(out.to_owned())).unwrap();
    assert_eq!(t.metadata.video_title, m.video_title);
    assert_eq!(t.metadata.artist, m.artist);
    assert_eq!(t.metadata.title, m.title);
    assert_eq!(t.metadata.duration_secs, m.duration_secs);
    assert_eq!(t.metadata.thumbnail_url, m.thumbnail_url);
    assert_eq!(t.metadata.youtube_url, m.youtube_url);
}
