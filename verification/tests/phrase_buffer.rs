use std::time::{Duration, Instant};
use stt::meeting::PhraseBuffer as SessionPhraseBuffer;
use stt::phrase_buffer::PhraseBuffer;

#[test]
fn test_empty_buffer() {
    let buf = PhraseBuffer::new();
    assert!(buf.is_empty());
    assert!(!buf.should_flush());
}

#[test]
fn test_add_and_flush() {
    let mut buf = PhraseBuffer::new();
    let now = Instant::now();

    buf.add_word("Hello".to_string(), now);
    buf.add_word("world".to_string(), now);

    assert!(!buf.is_empty());

    let result = buf.flush();
    assert!(result.is_some());
    let (_, text) = result.unwrap();
    assert_eq!(text, "Hello world");
    assert!(buf.is_empty());
}

#[test]
fn test_flush_empty_after_flush() {
    let mut buf = PhraseBuffer::new();
    buf.add_word("test".to_string(), Instant::now());
    buf.flush();
    assert!(buf.flush().is_none());
}

#[test]
fn test_whitespace_only_flush() {
    let mut buf = PhraseBuffer::new();
    buf.add_word(" ".to_string(), Instant::now());
    buf.add_word("  ".to_string(), Instant::now());
    assert!(buf.flush().is_none());
}

#[test]
fn silence_gap_decides_when_a_phrase_is_complete() {
    let start = Instant::now();
    let mut buf = PhraseBuffer::new();
    assert_eq!(buf.quiet_for_ms(), u64::MAX);
    buf.add_word("one".to_string(), start);
    assert!(!buf.should_flush_at(start + Duration::from_millis(799)));
    assert!(buf.should_flush_at(start + Duration::from_millis(800)));
    assert_eq!(buf.quiet_for_ms_at(start + Duration::from_micros(12_999)), 12);
    // A clock that stands before the word shows no silence.
    assert_eq!(buf.quiet_for_ms_at(start - Duration::from_millis(5)), 0);
    buf.add_word("two".to_string(), start + Duration::from_millis(700));
    assert!(!buf.should_flush_at(start + Duration::from_millis(800)));
    assert!(buf.quiet_for_ms() < u64::MAX);
}

#[test]
fn flush_keeps_the_first_time_and_trims() {
    let start = Instant::now();
    let later = start + Duration::from_millis(90);
    let mut buf = PhraseBuffer::new();
    buf.add_word("\u{3000}  Hello".to_string(), start);
    buf.add_word("there \t".to_string(), later);
    let (time, text) = buf.flush().unwrap();
    assert_eq!(time, start);
    assert_eq!(text, "Hello there");

    buf.add_word("again".to_string(), later);
    let (time, text) = buf.flush().unwrap();
    assert_eq!(time, later);
    assert_eq!(text, "again");
}

#[test]
fn flush_simple_hands_out_the_text() {
    let mut buf = PhraseBuffer::new();
    assert_eq!(buf.flush_simple(), None);
    buf.add_word("a".to_string(), Instant::now());
    buf.add_word("b".to_string(), Instant::now());
    assert_eq!(buf.flush_simple(), Some("a b".to_string()));
    assert_eq!(buf.flush_simple(), None);
}

#[test]
fn session_phrases_keep_session_times() {
    let now = Instant::now();
    let mut buf = SessionPhraseBuffer::new_at(now);
    assert!(buf.is_empty());
    assert!(buf.flush_simple().is_none());
    buf.add_word_at("well".to_string(), Duration::from_millis(1500), now);
    buf.add_word_at(
        "then".to_string(),
        Duration::from_millis(2500),
        now + Duration::from_millis(10),
    );
    assert!(!buf.should_flush_at(800, now + Duration::from_millis(810)));
    assert!(buf.should_flush_at(800, now + Duration::from_millis(811)));
    assert_eq!(buf.quiet_for_ms_at(now + Duration::from_millis(30)), 20);
    let (start, end, text) = buf.flush(Duration::from_millis(4000)).unwrap();
    assert_eq!(start, Duration::from_millis(1500));
    assert_eq!(end, Duration::from_millis(4000));
    assert_eq!(text, "well then");
    assert!(buf.is_empty());
}

#[test]
fn session_phrases_are_not_trimmed() {
    let mut buf = SessionPhraseBuffer::default();
    buf.add_word(" ".to_string(), Duration::from_secs(1));
    assert!(!buf.should_flush(1_000_000));
    assert!(buf.quiet_for_ms() < 1_000_000);
    let (start, text) = buf.flush_simple().unwrap();
    assert_eq!(start, Duration::from_secs(1));
    assert_eq!(text, " ");
    assert!(buf.flush(Duration::from_secs(2)).is_none());
}
