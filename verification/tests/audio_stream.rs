use tahti_radio::audio_stream::{AudioStream, WriteOutcome, BUFFER_SIZE};

#[test]
fn read_gives_back_what_was_written() {
    let mut s = AudioStream::new();
    assert_eq!(s.write(&[1, 2, 3, 4]), WriteOutcome::Written(4));
    let mut buf = [0u8; 4];
    assert_eq!(s.read(&mut buf), 4);
    assert_eq!(buf, [1, 2, 3, 4]);
}

#[test]
fn reads_keep_write_order_across_partial_reads() {
    let mut s = AudioStream::new();
    assert_eq!(s.write(&[1, 2, 3]), WriteOutcome::Written(3));
    assert_eq!(s.write(&[4, 5]), WriteOutcome::Written(2));
    let mut buf = [9u8; 2];
    assert_eq!(s.read(&mut buf), 2);
    assert_eq!(buf, [1, 2]);
    let mut big = [7u8; 5];
    assert_eq!(s.read(&mut big), 3);
    assert_eq!(big, [3, 4, 5, 7, 7]);
}

#[test]
fn starved_open_stream_reads_silence() {
    let mut s = AudioStream::new();
    let mut buf = [5u8; 6];
    assert_eq!(s.read(&mut buf), 6);
    assert_eq!(buf, [0u8; 6]);
}

#[test]
fn drained_closed_stream_reports_end() {
    let mut s = AudioStream::new();
    assert_eq!(s.write(&[8]), WriteOutcome::Written(1));
    s.close();
    assert!(s.is_closed());
    let mut buf = [5u8; 3];
    assert_eq!(s.read(&mut buf), 1);
    assert_eq!(buf, [8, 5, 5]);
    assert_eq!(s.read(&mut buf), 0);
    assert_eq!(buf, [8, 5, 5]);
    assert_eq!(s.read(&mut buf), 0);
}

#[test]
fn write_that_does_not_fit_waits_or_fails() {
    let mut s = AudioStream::new();
    let big = vec![1u8; BUFFER_SIZE];
    assert_eq!(s.write(&big), WriteOutcome::Written(BUFFER_SIZE));
    assert_eq!(s.write(&[2]), WriteOutcome::Full);
    let mut buf = [0u8; 1];
    assert_eq!(s.read(&mut buf), 1);
    assert_eq!(s.write(&[2]), WriteOutcome::Written(1));
    assert_eq!(s.write(&[3]), WriteOutcome::Full);
    s.close();
    assert_eq!(s.write(&[3]), WriteOutcome::Closed);
}

#[test]
fn closed_stream_still_accepts_writes_that_fit() {
    let mut s = AudioStream::new();
    s.close();
    assert_eq!(s.write(&[1, 2]), WriteOutcome::Written(2));
    let mut buf = [0u8; 2];
    assert_eq!(s.read(&mut buf), 2);
    assert_eq!(buf, [1, 2]);
}

#[test]
fn oversized_write_never_fits() {
    let mut s = AudioStream::new();
    let too_big = vec![0u8; BUFFER_SIZE + 1];
    assert_eq!(s.write(&too_big), WriteOutcome::Full);
    s.close();
    assert_eq!(s.write(&too_big), WriteOutcome::Closed);
}

#[test]
fn flush_discards_buffered_bytes() {
    let mut s = AudioStream::new();
    assert_eq!(s.write(&[1, 2, 3]), WriteOutcome::Written(3));
    s.flush();
    let mut buf = [9u8; 2];
    assert_eq!(s.read(&mut buf), 2);
    assert_eq!(buf, [0, 0]);
}

#[test]
fn buffer_size_is_sixteen_mebibytes() {
    assert_eq!(BUFFER_SIZE, 16 * 1024 * 1024);
}
