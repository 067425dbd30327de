use tahti_radio::decode::ffmpeg_args;
use tahti_radio::playlist::{load, PlaylistError};
use tahti_radio::text::{parse_u64, push_decimal, same_text, trim};
use tahti_radio::ytdlp::{collect_output, ytdlp_args, YtdlpError};

#[test]
fn trim_matches_std() {
    for s in ["", "  ", " a b ", "\u{a0}x\u{3000}", "\t\r\nq\n", "abc", "\u{200b}z"] {
        assert_eq!(trim(s), s.trim(), "trim of {s:?}");
    }
}

#[test]
fn parse_u64_matches_std() {
    for s in ["0", "42", "+42", "+", "", "-1", "1 ", "007", "18446744073709551615", "18446744073709551616", "1e3", "٣"] {
        assert_eq!(parse_u64(s), s.parse::<u64>().ok(), "parse of {s:?}");
    }
}

#[test]
fn decimal_printing() {
    let mut s = String::from("n=");
    push_decimal(&mut s, 0);
    assert_eq!(s, "n=0");
    let mut s = String::new();
    push_decimal(&mut s, 1234567890);
    assert_eq!(s, "1234567890");
    let mut s = String::new();
    push_decimal(&mut s, u64::MAX);
    assert_eq!(s, u64::MAX.to_string());
}

#[test]
fn same_text_compares_contents() {
    assert!(same_text("play", "play"));
    assert!(!same_text("play", "pla"));
    assert!(!same_text("play", "Play"));
    assert!(same_text("", ""));
}

#[test]
fn playlist_is_the_lines_of_the_track_list() {
    assert_eq!(load("a\nb\r\nc\n").unwrap(), vec!["a", "b", "c"]);
    assert_eq!(load("\n").unwrap(), vec![""]);
    assert_eq!(load(""), Err(PlaylistError::Empty));
}

#[test]
fn ytdlp_args_with_and_without_stream_url() {
    let base = [
        "-f", "bestaudio", "--print", "%(title)s", "--print", "%(artist)s", "--print", "%(track)s",
        "--print", "%(duration)s", "--print", "%(thumbnail)s",
    ];
    let mut expected: Vec<String> = base.iter().map(|s| s.to_string()).collect();
    expected.push("URL".to_owned());
    assert_eq!(ytdlp_args("URL", false), expected);
    expected.insert(expected.len() - 1, "-g".to_owned());
    assert_eq!(ytdlp_args("URL", true), expected);
}

#[test]
fn collect_output_decodes_stdout_or_reports_stderr() {
    assert_eq!(collect_output(true, b"abc\n", b"ignored").unwrap(), "abc\n");
    assert_eq!(collect_output(true, b"a\xffb", b"").unwrap(), "a\u{fffd}b");
    match collect_output(false, b"out", b"  ERROR: nope \n") {
        Err(YtdlpError::Failed(msg)) => assert_eq!(msg, "ERROR: nope"),
        _ => panic!("expected failure"),
    }
}

#[test]
fn ffmpeg_args_decode_to_stereo_f32() {
    let expected = [
        "-nostdin", "-i", "http://x", "-f", "f32le", "-ar", "48000", "-ac", "2", "-loglevel",
        "error", "pipe:1",
    ];
    assert_eq!(ffmpeg_args("http://x"), expected);
}

#[test]
fn decimal_parses_back() {
    for n in [0u64, 9, 10, 99, 100, 4096, u64::MAX - 1, u64::MAX] {
        let mut s = String::new();
        push_decimal(&mut s, n);
        assert_eq!(parse_u64(&s), Some(n));
    }
}

#[test]
fn final_line_ending_is_optional() {
    for s in ["a", "a\nb", "a\r\nb", "x\r"] {
        let without = load(s).unwrap();
        assert_eq!(load(&format!("{s}\r\n")).unwrap(), without);
        if !s.ends_with('\r') {
            assert_eq!(load(&format!("{s}\n")).unwrap(), without);
        }
    }
    assert_eq!(load("\n").unwrap().len(), 1);
}
