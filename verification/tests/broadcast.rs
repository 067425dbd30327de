use tahti_radio::broadcast::{pump_step, Broadcast, DecoderRead, PumpAction, TrackQueue, PCM_CHUNK};
use tahti_radio::track::TrackMetadata;

fn test_metadata(youtube_url: &str) -> TrackMetadata {
    TrackMetadata {
        artist: None,
        title: None,
        video_title: youtube_url.to_owned(),
        duration_secs: 0,
        youtube_url: youtube_url.to_owned(),
        thumbnail_url: String::new(),
    }
}

fn test_broadcast() -> Broadcast {
    let playlist = vec![
        "https://youtube.com/watch?v=playlist1".to_owned(),
        "https://youtube.com/watch?v=playlist2".to_owned(),
        "https://youtube.com/watch?v=playlist3".to_owned(),
    ];
    Broadcast::new(playlist)
}

#[test]
fn next_url_picks_from_playlist_when_queue_is_empty() {
    let mut broadcast = test_broadcast();

    let url = broadcast.next_url();

    assert!(
        broadcast.playlist().contains(&url),
        "Expected URL from playlist, got {url}"
    );
}

#[test]
fn next_url_pops_from_queue_in_fifo_order() {
    let mut broadcast = test_broadcast();

    {
        let q = broadcast.queue();
        q.push_back(test_metadata("https://youtube.com/watch?v=queued1"));
        q.push_back(test_metadata("https://youtube.com/watch?v=queued2"));
        q.push_back(test_metadata("https://youtube.com/watch?v=queued3"));
    }

    assert_eq!(broadcast.next_url(), "https://youtube.com/watch?v=queued1");
    assert_eq!(broadcast.next_url(), "https://youtube.com/watch?v=queued2");
    assert_eq!(broadcast.next_url(), "https://youtube.com/watch?v=queued3");
}

#[test]
fn next_url_falls_back_to_playlist_after_queue_ends() {
    let mut broadcast = test_broadcast();

    broadcast
        .queue()
        .push_back(test_metadata("https://youtube.com/watch?v=queued"));

    assert_eq!(broadcast.next_url(), "https://youtube.com/watch?v=queued");

    let url = broadcast.next_url();
    assert!(
        broadcast.playlist().contains(&url),
        "Expected URL from playlist after queue drained, got {url}"
    );
}

#[test]
fn queue_drains_before_playlist_and_keeps_playlist() {
    let mut broadcast = test_broadcast();
    broadcast.queue().push_back(test_metadata("a"));
    broadcast.queue().push_back(test_metadata("b"));
    assert_eq!(broadcast.queue().len(), 2);
    assert_eq!(broadcast.next_url(), "a");
    assert_eq!(broadcast.queue().len(), 1);
    broadcast.queue().push_back(test_metadata("c"));
    assert_eq!(broadcast.next_url(), "b");
    assert_eq!(broadcast.next_url(), "c");
    assert!(broadcast.queue().is_empty());
    assert_eq!(broadcast.playlist().len(), 3);
}

#[test]
fn random_picks_stay_in_playlist() {
    let mut broadcast = Broadcast::new(vec!["only".to_owned()]);
    for _ in 0..20 {
        assert_eq!(broadcast.next_url(), "only");
    }
}

#[test]
fn track_queue_pop_front_on_empty_queue_is_none() {
    let mut q = TrackQueue::new();
    assert!(q.pop_front().is_none());
    q.push_back(test_metadata("x"));
    assert_eq!(q.pop_front().map(|t| t.youtube_url), Some("x".to_owned()));
    assert!(q.pop_front().is_none());
}

#[test]
fn queue_listing_when_empty() {
    let q = TrackQueue::new();
    assert_eq!(q.listing(), "The queue is empty.");
}

#[test]
fn queue_listing_numbers_tracks_from_one() {
    let mut q = TrackQueue::new();
    let mut first = test_metadata("u1");
    first.video_title = "First video".to_owned();
    let mut second = test_metadata("u2");
    second.artist = Some("Artist".to_owned());
    second.title = Some("Song".to_owned());
    q.push_back(first);
    q.push_back(second);
    assert_eq!(q.listing(), "1. First video\n2. Artist - Song\n");
}

#[test]
fn queue_listing_counts_past_nine() {
    let mut q = TrackQueue::new();
    for i in 0..12 {
        q.push_back(test_metadata(&format!("t{i}")));
    }
    let listing = q.listing();
    let lines: Vec<&str> = listing.lines().collect();
    assert_eq!(lines.len(), 12);
    assert_eq!(lines[9], "10. t9");
    assert_eq!(lines[11], "12. t11");
}

#[test]
fn pump_forwards_bytes_and_stops_at_end_or_error() {
    assert_eq!(PCM_CHUNK, 7680);
    assert_eq!(pump_step(DecoderRead::Bytes(7680)), PumpAction::Forward(7680));
    assert_eq!(pump_step(DecoderRead::Bytes(3)), PumpAction::Forward(3));
    assert_eq!(pump_step(DecoderRead::Bytes(0)), PumpAction::Stop);
    assert_eq!(pump_step(DecoderRead::Failed), PumpAction::Stop);
}
