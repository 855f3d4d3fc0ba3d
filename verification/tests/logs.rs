use stt::audio::mux_audio;
use stt::events::Event;
use stt::kyutai::{AsrMessage, FileTranscript};
use stt::meeting::live::LiveMeeting;
use stt::retranscribe::{retranscribed_log, NewSegment};
use stt::speakers::{labelled_log, log_spans, percent_done, wants_speakers, SpeakerSpan};
use stt::stamp::{compact, Timestamp};
use stt::summary::{curl_arguments, curl_config, summary_call, summary_request};
use stt::tui::App;

fn said(text: &str, start_ms: u64, end_ms: u64) -> NewSegment {
    NewSegment {
        ts: Timestamp::from_unix_with_offset(0, 0).unwrap(),
        src: "local",
        text: text.to_string(),
        start_ms,
        end_ms,
    }
}

#[test]
fn draft_segments_are_replaced_in_the_log() {
    let log = "{\"type\":\"session_start\",\"id\":1}\n\
               {\"type\":\"segment\",\"id\":2,\"text\":\"drft\",\"start_ms\":5,\"end_ms\":6}\n\
               no event\n\
               \n\
               {\"type\":\"marker\",\"id\":3,\"offset_ms\":20,\"label\":\"M\"}\n";
    let new_log = retranscribed_log(log, &vec![said("late", 30, 40), said("draft", 5, 6)]).unwrap();
    assert_eq!(
        new_log,
        "{\"id\":1,\"type\":\"session_start\"}\n\
         {\"end_ms\":6,\"id\":5,\"src\":\"local\",\"start_ms\":5,\"text\":\"draft\",\
         \"ts\":\"1970-01-01T00:00:00+00:00\",\"type\":\"segment\"}\n\
         {\"id\":3,\"label\":\"M\",\"offset_ms\":20,\"type\":\"marker\"}\n\
         {\"end_ms\":40,\"id\":4,\"src\":\"local\",\"start_ms\":30,\"text\":\"late\",\
         \"ts\":\"1970-01-01T00:00:00+00:00\",\"type\":\"segment\"}\n"
    );
}

#[test]
fn a_log_without_free_numbers_is_not_rewritten() {
    let log = "{\"type\":\"marker\",\"id\":18446744073709551615}\n";
    assert_eq!(retranscribed_log(log, &vec![said("a", 0, 1)]), None);
}

#[test]
fn an_empty_log_is_one_line_end() {
    assert_eq!(retranscribed_log("", &Vec::new()).unwrap(), "\n");
}

#[test]
fn speakers_are_written_into_the_log() {
    let log = "{\"type\":\"segment\",\"start_ms\":0,\"end_ms\":10}\n\
               {\"type\":\"marker\",\"start_ms\":0,\"end_ms\":10}\n\
               {\"type\":\"segment\",\"start_ms\":90,\"end_ms\":99}";
    assert_eq!(log_spans(log), vec![Some((0, 10)), None, Some((90, 99))]);
    let spans = vec![SpeakerSpan { start: 0, end: 50, speaker: 7 }];
    assert_eq!(
        labelled_log(log, &vec![Some(5), None, Some(95)], &spans),
        "{\"end_ms\":10,\"speaker\":\"speaker_07\",\"start_ms\":0,\"type\":\"segment\"}\n\
         {\"end_ms\":10,\"start_ms\":0,\"type\":\"marker\"}\n\
         {\"end_ms\":99,\"start_ms\":90,\"type\":\"segment\"}\n"
    );
}

#[test]
fn a_summary_is_asked_for_from_the_log() {
    let log = "{\"type\":\"segment\",\"src\":\"mic\",\"text\":\"hi\"}\n";
    assert_eq!(
        summary_request(log, Some("P"), Some("C"), "some-model"),
        "{\"max_tokens\":4096,\"messages\":[{\"content\":\
         \"P\\n\\n## Meeting Context\\nC\\n\\n## Transcript\\n[ME]: hi\",\"role\":\"user\"}],\
         \"model\":\"some-model\"}"
    );
}

#[test]
fn muxed_audio_is_as_long_as_the_longer_source() {
    assert_eq!(mux_audio(&[1], &[2, 3, 4]).unwrap().len(), 3);
    assert_eq!(mux_audio(&[1, 2], &[]).unwrap().len(), 2);
}

#[test]
fn times_are_written_compactly() {
    assert_eq!(compact(1_700_000_000).unwrap(), "20231114_221320");
    assert_eq!(compact(i64::MAX), None);
}

#[test]
fn images_are_counted() {
    let ts = Timestamp::from_unix(0, 0).unwrap();
    let (mut meeting, _) =
        LiveMeeting::start(None, "mtg_1".to_string(), ts, std::time::Instant::now());
    assert_eq!(meeting.images(), 0);
    meeting.next_screenshot();
    assert_eq!(meeting.images(), 1);
}

#[test]
fn progress_of_an_unknown_total_is_nothing() {
    assert_eq!(percent_done(i32::MAX, 0), 0);
}

#[test]
fn a_default_transcript_is_empty() {
    let app = App::default();
    assert!(app.events.is_empty());
    assert!(app.auto_scroll && app.mic_on && app.sys_on);
    assert!(!app.should_quit && app.meeting_title.is_none());
}

#[test]
fn the_key_stays_off_the_command_line() {
    assert_eq!(
        curl_arguments("{}"),
        vec![
            "-s",
            "-X",
            "POST",
            "https://api.anthropic.com/v1/messages",
            "--config",
            "-",
            "-d",
            "{}",
        ]
    );
    let log = "{\"type\":\"segment\",\"src\":\"mic\",\"text\":\"hi\"}\n";
    let one = summary_call(log, Some("P"), None, "some-model", "first-key");
    let other = summary_call(log, Some("P"), None, "some-model", "second-key");
    assert_eq!(one.arguments, other.arguments);
    assert_eq!(one.arguments[7], summary_request(log, Some("P"), None, "some-model"));
    assert!(one.arguments.iter().all(|argument| !argument.contains("first-key")));
    assert_eq!(one.input, curl_config("first-key"));
    assert_eq!(other.input, curl_config("second-key"));
}

#[test]
fn speakers_are_wanted_where_there_are_passages() {
    assert!(wants_speakers(true, 1));
    assert!(!wants_speakers(true, 0));
    assert!(!wants_speakers(false, 1));
}

#[test]
fn file_passages_hold_every_word() {
    let mut transcript = FileTranscript::new();
    for (i, text) in ["a ", " b", "  ", "c", "d\t", "e"].iter().enumerate() {
        let start = i as u64;
        transcript.step(AsrMessage::Word { text: text.to_string(), batch_idx: 0, start });
        if i % 2 == 1 {
            transcript.step(AsrMessage::Step { boundary: i == 3 });
        } else if i == 2 {
            transcript.step(AsrMessage::EndWord { stop: start });
        }
    }
    let all: String = transcript.finish().into_iter().map(|s| s.text).collect();
    let letters: String = all.chars().filter(|c| !c.is_whitespace()).collect();
    assert_eq!(letters, "abcde");
}

#[test]
fn an_added_event_leaves_the_others_in_order() {
    let marker = |id: u64, offset_ms: u64| Event::Marker {
        id,
        ts: Timestamp::from_unix(0, 0).unwrap(),
        offset_ms,
        label: String::new(),
    };
    let number = |event: &Event| match event {
        Event::Marker { id, .. } => *id,
        _ => 0,
    };
    let mut app = App::new(None);
    for (id, offset_ms) in [(1, 10), (2, 30), (3, 10), (4, 20), (5, 30)] {
        app.add_event(marker(id, offset_ms));
        assert!(app.auto_scroll);
        assert_eq!(app.scroll, app.events.len());
    }
    assert_eq!(app.events.iter().map(number).collect::<Vec<u64>>(), vec![1, 3, 4, 2, 5]);
    app.scroll_up();
    app.add_event(marker(6, 0));
    assert!(!app.auto_scroll);
    assert_eq!(app.scroll, 4);
    assert_eq!(app.events.iter().map(number).collect::<Vec<u64>>(), vec![6, 1, 3, 4, 2, 5]);
}
