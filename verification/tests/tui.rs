use std::time::{Duration, Instant};
use stt::events::{AudioSource, Event};
use stt::stamp::Timestamp;
use stt::tui::input::{handle_key_at, Key, KeyCode};
use stt::tui::ui::{
    input_area, row_style, scroll_indicator, status_line, transcript_rows, transcript_title, Colour,
};
use stt::tui::{handle_key, App, InputMode, KeyAction};

fn note(offset_ms: u64, text: &str) -> Event {
    Event::Manual {
        id: 1,
        ts: Timestamp::from_unix(0, 0).unwrap(),
        offset_ms,
        text: text.to_string(),
    }
}

fn texts(app: &App) -> Vec<String> {
    app.events
        .iter()
        .map(|e| match e {
            Event::Manual { text, .. } => text.clone(),
            _ => panic!("not a note"),
        })
        .collect()
}

fn key(code: KeyCode) -> Key {
    Key { code, control: false }
}

fn press(app: &mut App, code: KeyCode, height: usize) -> KeyAction {
    handle_key(app, key(code), height, None)
}

fn filled(n: u64) -> App {
    let mut app = App::new(None);
    for i in 0..n {
        app.add_event(note(i, "x"));
    }
    app
}

#[test]
fn events_are_sorted_and_keep_insertion_order() {
    let mut app = App::new(None);
    app.add_event(note(5, "a"));
    app.add_event(note(9, "b"));
    app.add_event(note(5, "c"));
    app.add_event(note(0, "d"));
    app.add_event(note(9, "e"));
    assert_eq!(texts(&app), vec!["d", "a", "c", "b", "e"]);
    assert_eq!(app.scroll, 5);
    app.auto_scroll = false;
    app.scroll = 2;
    app.add_event(note(1, "f"));
    assert_eq!(app.scroll, 2);
    assert_eq!(texts(&app), vec!["d", "f", "a", "c", "b", "e"]);
}

#[test]
fn scrolling_stays_in_bounds() {
    let mut app = filled(10);
    assert!(app.auto_scroll);
    press(&mut app, KeyCode::Up, 4);
    assert_eq!(app.scroll, 9);
    assert!(!app.auto_scroll);
    press(&mut app, KeyCode::Char('g'), 4);
    assert_eq!(app.scroll, 0);
    press(&mut app, KeyCode::Char('k'), 4);
    assert_eq!(app.scroll, 0);
    press(&mut app, KeyCode::Char('j'), 4);
    press(&mut app, KeyCode::Down, 4);
    assert_eq!(app.scroll, 2);
    press(&mut app, KeyCode::PageDown, 4);
    assert_eq!(app.scroll, 6);
    press(&mut app, KeyCode::PageDown, 4);
    assert_eq!(app.scroll, 6);
    press(&mut app, KeyCode::PageUp, 4);
    assert_eq!(app.scroll, 2);
    press(&mut app, KeyCode::PageUp, 4);
    assert_eq!(app.scroll, 0);
    press(&mut app, KeyCode::Char('G'), 4);
    assert_eq!(app.scroll, 10);
    assert!(app.auto_scroll);
}

#[test]
fn markers_and_notes_are_typed() {
    let mut app = App::new(None);
    assert!(matches!(press(&mut app, KeyCode::Char('m'), 5), KeyAction::Nothing));
    assert_eq!(app.input_mode, InputMode::Marker);
    for c in "qsx".chars() {
        press(&mut app, KeyCode::Char(c), 5);
    }
    press(&mut app, KeyCode::Backspace, 5);
    assert_eq!(app.input_buffer, "qs");
    match press(&mut app, KeyCode::Enter, 5) {
        KeyAction::SubmitMarker(label) => assert_eq!(label, "qs"),
        _ => panic!("no marker"),
    }
    assert_eq!(app.input_mode, InputMode::Normal);
    assert!(!app.should_quit);

    press(&mut app, KeyCode::Char('n'), 5);
    press(&mut app, KeyCode::Char('y'), 5);
    match press(&mut app, KeyCode::Enter, 5) {
        KeyAction::SubmitNote(text) => assert_eq!(text, "y"),
        _ => panic!("no note"),
    }

    press(&mut app, KeyCode::Char('n'), 5);
    assert!(matches!(press(&mut app, KeyCode::Enter, 5), KeyAction::Nothing));
    assert_eq!(app.input_mode, InputMode::Normal);

    press(&mut app, KeyCode::Char('m'), 5);
    press(&mut app, KeyCode::Char('z'), 5);
    press(&mut app, KeyCode::Other, 5);
    assert_eq!(app.input_buffer, "z");
    press(&mut app, KeyCode::Esc, 5);
    assert_eq!(app.input_buffer, "");
    assert_eq!(app.input_mode, InputMode::Normal);
}

#[test]
fn commands_ask_for_actions() {
    let mut app = App::new(None);
    assert!(matches!(press(&mut app, KeyCode::Char('s'), 5), KeyAction::CaptureScreenshot));
    assert!(matches!(press(&mut app, KeyCode::Char('S'), 5), KeyAction::CaptureWindowScreenshot));
    assert!(!app.should_quit);
    assert!(matches!(press(&mut app, KeyCode::Char('q'), 5), KeyAction::Quit));
    assert!(app.should_quit);

    let mut app = App::new(None);
    press(&mut app, KeyCode::Char('n'), 5);
    let ctrl_c = Key { code: KeyCode::Char('c'), control: true };
    assert!(matches!(handle_key(&mut app, ctrl_c, 5, None), KeyAction::Quit));
    assert!(app.should_quit);
}

#[test]
fn dragged_image_is_recognised() {
    let start = Instant::now();
    let mut app = App::new_at(None, start);
    let path = "/tmp/A.WebP";
    for (i, c) in path.chars().enumerate() {
        let action = handle_key_at(&mut app, key(KeyCode::Char(c)), 5, start, None);
        if i + 1 < path.chars().count() {
            // `m` is a command of its own.
            if c == 'm' {
                assert_eq!(app.input_mode, InputMode::Marker);
                app.exit_input_mode();
                for c in "/t".chars() {
                    app.add_paste_char_at(c, start, None);
                }
                app.paste_buffer.push('m');
            }
        } else {
            match action {
                KeyAction::ImportImage(p) => assert_eq!(p, path),
                _ => panic!("no image"),
            }
        }
    }
    assert_eq!(app.paste_buffer, "");
}

#[test]
fn pasted_home_paths_are_expanded() {
    let start = Instant::now();
    let mut app = App::new_at(None, start);
    app.paste_buffer = " ~/pic.HEI".to_string();
    assert_eq!(
        app.add_paste_char_at('C', start, Some("/Users/me")),
        Some("/Users/me/pic.HEIC".to_string())
    );
    app.paste_buffer = "~/pic.pn".to_string();
    assert_eq!(app.add_paste_char_at('g', start, None), Some("~/pic.png".to_string()));
    app.paste_buffer = "~x.jpe".to_string();
    assert_eq!(app.add_paste_char_at('g', start, Some("/h")), Some("~x.jpeg".to_string()));
    app.paste_buffer = "pic.pn".to_string();
    assert_eq!(app.add_paste_char_at('g', start, Some("/h")), None);
    assert_eq!(app.paste_buffer, "pic.png");
    app.clear_paste_buffer();
    app.paste_buffer = "/a.tx".to_string();
    assert_eq!(app.add_paste_char_at('t', start, None), None);
    assert_eq!(app.add_paste_char('!', None), None);
}

#[test]
fn slow_typing_is_no_paste() {
    let start = Instant::now();
    let mut app = App::new_at(None, start);
    app.add_paste_char_at('/', start, None);
    app.add_paste_char_at('a', start + Duration::from_millis(500), None);
    assert_eq!(app.paste_buffer, "/a");
    app.add_paste_char_at('b', start + Duration::from_millis(1001), None);
    assert_eq!(app.paste_buffer, "b");
    press(&mut app, KeyCode::Other, 5);
    assert_eq!(app.paste_buffer, "");
}

#[test]
fn window_follows_the_end_or_the_position() {
    let mut app = App::new(Some("Sync".to_string()));
    for i in 0..10 {
        app.add_event(note(i * 1000, &format!("n{}", i)));
    }
    let rows = transcript_rows(&app, 6);
    assert_eq!(rows.len(), 4);
    assert_eq!(rows[0].text, "[00:06] [NOTE] ✏️  n6");
    assert_eq!(rows[3].text, "[00:09] [NOTE] ✏️  n9");
    assert_eq!(rows[0].style.colour, Colour::Magenta);
    app.scroll = 2;
    app.auto_scroll = false;
    let rows = transcript_rows(&app, 6);
    assert_eq!(rows[0].text, "[00:02] [NOTE] ✏️  n2");
    app.scroll = 9;
    assert_eq!(transcript_rows(&app, 6)[0].text, "[00:06] [NOTE] ✏️  n6");
    assert_eq!(transcript_rows(&app, 100).len(), 10);
    assert!(transcript_rows(&app, 1).is_empty());
    assert_eq!(transcript_title(&app), " Sync | Transcript (10 events) ");
    app.meeting_title = None;
    assert_eq!(transcript_title(&app), " Transcript (10 events) ");
}

#[test]
fn rows_have_colours() {
    let ts = Timestamp::from_unix(0, 0).unwrap();
    let mic = Event::Segment {
        id: 1,
        ts: ts.clone(),
        src: AudioSource::Mic,
        text: String::new(),
        start_ms: 0,
        end_ms: 0,
        speaker: None,
    };
    assert_eq!(row_style(&mic).colour, Colour::Cyan);
    assert!(!row_style(&mic).bold);
    let marker = Event::Marker { id: 1, ts: ts.clone(), offset_ms: 0, label: String::new() };
    assert_eq!(row_style(&marker).colour, Colour::Yellow);
    assert!(row_style(&marker).bold);
    let end = Event::SessionEnd { id: 1, ts, duration_ms: 0 };
    assert_eq!(row_style(&end).colour, Colour::DarkGray);
}

#[test]
fn input_area_shows_what_is_typed() {
    let mut app = App::new(None);
    let area = input_area(&app);
    assert_eq!(area.title, "Help");
    assert_eq!(
        area.content,
        " 's' screenshot | 'm' marker | 'n' note | '↑↓' scroll | 'q' quit "
    );
    app.enter_marker_mode();
    app.input_buffer.push_str("TODO");
    let area = input_area(&app);
    assert_eq!(area.title, "Marker (Enter to submit, Esc to cancel)");
    assert_eq!(area.content, "Label: TODO_");
    assert_eq!(area.colour, Colour::Yellow);
    app.enter_note_mode();
    assert_eq!(input_area(&app).content, "Note: _");
}

#[test]
fn status_bar() {
    let start = Instant::now();
    let mut app = App::new_at(None, start);
    app.sys_on = false;
    let now = start + Duration::from_millis(3_661_999);
    assert_eq!(app.elapsed_ms_at(now), 3_661_999);
    assert!(app.elapsed_ms() < 3_661_999);
    assert_eq!(status_line(&app, now), " 🎤 ON | 🔊 OFF | ⏱ 61:01 | Events: 0 ");
    assert_eq!(scroll_indicator(&app), "[AUTO]");
    app.auto_scroll = false;
    assert_eq!(scroll_indicator(&app), "[1/1]");
    app.events.push(note(0, "a"));
    app.events.push(note(0, "b"));
    app.scroll = 1;
    assert_eq!(scroll_indicator(&app), "[2/2]");
}

#[test]
fn submitted_input_is_handed_out_once() {
    let mut app = App::new(None);
    app.input_mode = InputMode::Note;
    app.input_buffer.push_str("hello");
    assert_eq!(app.submit_input(), Some("hello".to_string()));
    assert_eq!(app.submit_input(), None);
    assert_eq!(app.input_mode, InputMode::Normal);
}
