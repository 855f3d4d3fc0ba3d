use serde_json::Value;
use stt::event_log::{read_events_jsonl, write_events_jsonl};
use stt::events::{format_ms, AudioSource, Event};
use stt::jsonl_writer::JsonlWriter;
use stt::stamp::Timestamp;

fn moment() -> Timestamp {
    Timestamp::from_unix(1431648000, 0).unwrap()
}

#[test]
fn test_event_serialization() {
    let event = Event::Segment {
        id: 1,
        ts: moment(),
        src: AudioSource::Mic,
        text: "Hello world".to_string(),
        start_ms: 5000,
        end_ms: 7500,
        speaker: None,
    };

    let json = event.log_line();
    assert!(json.contains("\"type\":\"segment\""));
    assert!(json.contains("\"src\":\"mic\""));
}

#[test]
fn test_jsonl_writer() {
    let mut file = String::new();
    {
        let mut writer = JsonlWriter::new();

        let event = Event::SessionStart {
            id: writer.next_id(),
            ts: moment(),
            session_id: "test_session".to_string(),
        };
        file.push_str(&writer.write(&event).line);

        let event = Event::Segment {
            id: writer.next_id(),
            ts: moment(),
            src: AudioSource::Mic,
            text: "Hello".to_string(),
            start_ms: 1000,
            end_ms: 2000,
            speaker: None,
        };
        file.push_str(&writer.write(&event).line);
    }

    let lines: Vec<String> = file.lines().map(|l| l.to_string()).collect();

    assert_eq!(lines.len(), 2);
    assert!(lines[0].contains("session_start"));
    assert!(lines[1].contains("segment"));
}

#[test]
fn segment_line_is_exact() {
    let event = Event::Segment {
        id: 7,
        ts: Timestamp::from_unix(1431648000, 250_000_000).unwrap(),
        src: AudioSource::Sys,
        text: "She said \"no\"\nthen left\u{1f600}".to_string(),
        start_ms: 5,
        end_ms: 70,
        speaker: Some("speaker_00".to_string()),
    };
    assert_eq!(
        event.log_line(),
        "{\"type\":\"segment\",\"id\":7,\"ts\":\"2015-05-15T00:00:00.250Z\",\"src\":\"sys\",\
         \"text\":\"She said \\\"no\\\"\\nthen left\u{1f600}\",\"start_ms\":5,\"end_ms\":70,\
         \"speaker\":\"speaker_00\"}"
    );
}

#[test]
fn every_kind_of_event_has_its_line() {
    let ts = "\"ts\":\"2015-05-15T00:00:00Z\"";
    let start = Event::SessionStart { id: 1, ts: moment(), session_id: "mtg_1".to_string() };
    assert_eq!(
        start.log_line(),
        format!("{{\"type\":\"session_start\",\"id\":1,{},\"session_id\":\"mtg_1\"}}", ts)
    );
    let marker = Event::Marker { id: 2, ts: moment(), offset_ms: 3, label: "DECISION".to_string() };
    assert_eq!(
        marker.log_line(),
        format!("{{\"type\":\"marker\",\"id\":2,{},\"offset_ms\":3,\"label\":\"DECISION\"}}", ts)
    );
    let note = Event::Manual { id: 3, ts: moment(), offset_ms: 4, text: "x".to_string() };
    assert_eq!(
        note.log_line(),
        format!("{{\"type\":\"manual\",\"id\":3,{},\"offset_ms\":4,\"text\":\"x\"}}", ts)
    );
    let shot = Event::Screenshot { id: 4, ts: moment(), offset_ms: 5, filename: "001.png".to_string() };
    assert_eq!(
        shot.log_line(),
        format!(
            "{{\"type\":\"screenshot\",\"id\":4,{},\"offset_ms\":5,\"filename\":\"001.png\"}}",
            ts
        )
    );
    let end = Event::SessionEnd { id: 5, ts: moment(), duration_ms: u64::MAX };
    assert_eq!(
        end.log_line(),
        format!("{{\"type\":\"session_end\",\"id\":5,{},\"duration_ms\":18446744073709551615}}", ts)
    );
}

#[test]
fn display_lines() {
    let ts = moment();
    let start = Event::SessionStart { id: 1, ts: ts.clone(), session_id: "mtg_1".to_string() };
    assert_eq!(start.display_line(), "─── Session: mtg_1 ───");
    let segment = Event::Segment {
        id: 1,
        ts: ts.clone(),
        src: AudioSource::Sys,
        text: "Hi".to_string(),
        start_ms: 65_999,
        end_ms: 70_000,
        speaker: None,
    };
    assert_eq!(segment.display_line(), "[01:05] [SYS] Hi");
    let marker = Event::Marker { id: 1, ts: ts.clone(), offset_ms: 0, label: "TODO".to_string() };
    assert_eq!(marker.display_line(), "[00:00] [MRK] 📌 TODO");
    let note = Event::Manual { id: 1, ts: ts.clone(), offset_ms: 1000, text: "n".to_string() };
    assert_eq!(note.display_line(), "[00:01] [NOTE] ✏️  n");
    let shot =
        Event::Screenshot { id: 1, ts: ts.clone(), offset_ms: 59_999, filename: "001.png".to_string() };
    assert_eq!(shot.display_line(), "[00:59] [IMG] 📷 001.png");
    let end = Event::SessionEnd { id: 1, ts, duration_ms: 7_200_000 };
    assert_eq!(end.display_line(), "─── Session ended (120:00) ───");
    assert_eq!(AudioSource::Mic.label(), "MIC");
}

#[test]
fn offsets_order_events() {
    let ts = moment();
    let start = Event::SessionStart { id: 1, ts: ts.clone(), session_id: String::new() };
    assert_eq!(start.offset_ms(), 0);
    let end = Event::SessionEnd { id: 1, ts, duration_ms: 12 };
    assert_eq!(end.offset_ms(), 12);
}

#[test]
fn durations_have_two_digits() {
    assert_eq!(format_ms(0), "00:00");
    assert_eq!(format_ms(61_000), "01:01");
    assert_eq!(format_ms(6_000_000), "100:00");
}

#[test]
fn log_is_read_back_as_it_was_written() {
    let mut writer = JsonlWriter::new();
    let mut file = String::new();
    let event = Event::Manual {
        id: writer.next_id(),
        ts: moment(),
        offset_ms: 3,
        text: "tab\tquote\" break\r\n end".to_string(),
    };
    file.push_str(&writer.write(&event).line);
    let event = Event::SessionEnd { id: writer.next_id(), ts: moment(), duration_ms: 9 };
    file.push_str(&writer.write(&event).line);

    let events = read_events_jsonl(&file);
    assert_eq!(events.len(), 2);
    assert_eq!(events[0]["type"], "manual");
    assert_eq!(events[0]["id"].as_u64(), Some(1));
    assert_eq!(events[0]["text"], "tab\tquote\" break\r\n end");
    assert_eq!(events[1]["duration_ms"].as_u64(), Some(9));

    let rewritten = write_events_jsonl(&events);
    assert!(rewritten.starts_with("{\"id\":1,\"offset_ms\":3,"));
    assert_eq!(read_events_jsonl(&rewritten), events);
}

#[test]
fn blank_lines_and_other_text_are_passed_over() {
    let content = "\n{\"id\":1}\r\n   \nnot json\n{\"id\":2} \n\n[3]\n\"four\"";
    let events = read_events_jsonl(content);
    assert_eq!(events.len(), 4);
    assert_eq!(events[0]["id"].as_u64(), Some(1));
    assert_eq!(events[1]["id"].as_u64(), Some(2));
    assert!(events[2].is_array());
    assert_eq!(events[3], Value::String("four".to_string()));
    assert!(read_events_jsonl("").is_empty());
}

#[test]
fn empty_log_is_one_line_break() {
    let none: Vec<Value> = Vec::new();
    assert_eq!(write_events_jsonl(&none), "\n");
    assert!(read_events_jsonl("\n").is_empty());
}

#[test]
fn ids_count_from_one() {
    let mut writer = JsonlWriter::new();
    assert_eq!(writer.next_id(), 1);
    assert_eq!(writer.next_id(), 2);
    assert_eq!(writer.peek_id(), 3);
    assert_eq!(writer.next_id(), 3);
}

#[test]
fn timestamps() {
    assert_eq!(
        Timestamp::from_unix_with_offset(1431648000, 1_000).unwrap().as_str(),
        "2015-05-15T00:00:00.000001+00:00"
    );
    assert!(Timestamp::from_unix(i64::MAX, 0).is_none());
    assert!(Timestamp::from_unix_with_offset(0, 4_000_000_000).is_none());
}

#[test]
fn a_written_event_is_returned_with_its_number() {
    let mut writer = JsonlWriter::new();
    writer.next_id();
    let event = Event::Marker {
        id: writer.next_id(),
        ts: moment(),
        offset_ms: 3,
        label: "DECISION".to_string(),
    };
    let written = writer.write(&event);
    assert_eq!(written.line, format!("{}\n", event.log_line()));
    match written.event {
        Event::Marker { id, label, .. } => assert_eq!((*id, label.as_str()), (2, "DECISION")),
        _ => panic!("another event"),
    }
}

#[test]
fn log_lines_are_spelled_out() {
    let event = Event::Segment {
        id: 42,
        ts: moment(),
        src: AudioSource::Mic,
        text: "\"\\/\u{8}\t\n\u{c}\r\u{0}\u{1f}\u{7f}\u{85}é".to_string(),
        start_ms: 0,
        end_ms: 1234567890,
        speaker: None,
    };
    let line = event.log_line();
    assert!(line.contains("\"type\":\"segment\""));
    assert!(line.contains("\"id\":42"));
    assert!(line.contains("\"src\":\"mic\""));
    assert!(line.contains(
        "\"text\":\"\\\"\\\\/\\b\\t\\n\\f\\r\\u0000\\u001f\u{7f}\u{85}é\""
    ));
    assert!(line.contains("\"start_ms\":0,\"end_ms\":1234567890"));
}
