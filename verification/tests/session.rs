use std::time::{Duration, Instant};
use stt::app_event::AppEvent;
use stt::event_log::read_events_jsonl;
use stt::events::AudioSource;
use stt::kyutai::CHUNK_SIZE;
use stt::listen::Listener;
use stt::meeting::collection::{next_round, Collector, Round};
use stt::meeting::live::LiveMeeting;
use stt::paths::{file_extension, join_path};
use stt::session::{
    choose_device, choose_models_dir, device_line, download_step, find_whisper_model, highest_rate, launch_script,
    missing_downloads, models_candidates, needs_terminal, post_steps, resolve_session_folder,
    session_folder, session_id, speaker_models, DownloadCommand, DownloadStep,
    ModelDir, PostStep,
};
use stt::stamp::Timestamp;
use stt::text;
use stt::tui::input::{Key, KeyCode};
use stt::tui::KeyAction;

fn moment() -> Timestamp {
    Timestamp::from_unix(0, 0).unwrap()
}

#[test]
fn meeting_is_logged_and_shown() {
    let start = Instant::now();
    let at = |ms: u64| start + Duration::from_millis(ms);
    let (mut meeting, mut file) =
        LiveMeeting::start(Some("Sync".to_string()), "mtg_1".to_string(), moment(), start);
    file.push_str(&meeting.add_segment(AudioSource::Sys, "Hello".to_string(), 500, 900, moment()));
    file.push_str(&meeting.add_marker("TODO".to_string(), moment(), at(400)));
    file.push_str(&meeting.add_note("n".to_string(), moment(), at(1000)));
    let name = meeting.next_screenshot();
    assert_eq!(name, "001.png");
    let copy = meeting.next_import("/a/b.c/pic.JPeG");
    assert_eq!(copy, "002.JPeG");
    assert_eq!(meeting.next_import("/a/.png"), "003.png");
    file.push_str(&meeting.add_image(copy, moment(), at(1500)));
    let shown: Vec<String> = meeting.app().events.iter().map(|e| e.display_line()).collect();
    assert_eq!(
        shown,
        vec![
            "─── Session: mtg_1 ───",
            "[00:00] [MRK] 📌 TODO",
            "[00:00] [SYS] Hello",
            "[00:01] [NOTE] ✏️  n",
            "[00:01] [IMG] 📷 002.JPeG",
        ]
    );
    let quit = Key { code: KeyCode::Char('q'), control: false };
    assert!(matches!(meeting.press(quit, 10, at(1600), None), KeyAction::Quit));
    assert!(meeting.app().should_quit);
    file.push_str(&meeting.end(moment(), at(2000)));

    let events = read_events_jsonl(&file);
    let ids: Vec<u64> = events.iter().map(|e| e["id"].as_u64().unwrap()).collect();
    assert_eq!(ids, vec![1, 2, 3, 4, 5, 6]);
    assert_eq!(events[2]["offset_ms"].as_u64(), Some(400));
    assert_eq!(events[5]["type"], "session_end");
    assert_eq!(events[5]["duration_ms"].as_u64(), Some(2000));
}

#[test]
fn turns_and_silence_end_utterances() {
    let start = Instant::now();
    let at = |ms: u64| start + Duration::from_millis(ms);
    let mut c = Collector::new(start);
    assert!(c.add_word(0, "me".to_string(), at(100), at(100), 100).is_none());
    // The microphone has not been silent long enough.
    assert!(c.add_word(1, "you".to_string(), at(400), at(400), 400).is_none());
    let u = c.add_word(1, "two".to_string(), at(401), at(401), 401).unwrap();
    assert_eq!(u.source, AudioSource::Mic);
    assert_eq!(u.text, "me");
    assert_eq!((u.start_ms, u.end_ms), (100, 401));
    assert!(c.add_word(2, "none".to_string(), at(900), at(900), 900).is_none());
    assert!(c.hand_out_due(AudioSource::Sys, at(1200), 1200).is_none());
    let u = c.hand_out_due(AudioSource::Sys, at(1201), 300).unwrap();
    assert_eq!(u.text, "you two");
    // The session clock was read before the first word came.
    assert_eq!((u.start_ms, u.end_ms), (300, 300));
    assert!(c.hand_out(AudioSource::Sys, 2000).is_none());
    assert!(c.add_word(1, " ".to_string(), at(2000), at(2000), 2000).is_none());
    assert!(c.hand_out(AudioSource::Sys, 2000).is_none());
}

#[test]
fn silence_stands_in_for_a_quiet_source() {
    let mut c = Collector::new(Instant::now());
    assert!(c.next_batch().is_none());
    c.hear(AudioSource::Sys, &vec![5; CHUNK_SIZE + 1]);
    c.hear(AudioSource::Mic, &[9]);
    let batch = c.next_batch().unwrap();
    assert_eq!(batch, vec![vec![0; CHUNK_SIZE], vec![5; CHUNK_SIZE]]);
    assert!(c.next_batch().is_none());
    c.hear(AudioSource::Mic, &vec![9; CHUNK_SIZE - 1]);
    assert_eq!(c.next_batch().unwrap()[0], vec![9; CHUNK_SIZE]);
    c.record(AudioSource::Mic, &[1, 2]);
    c.record(AudioSource::Sys, &[3]);
    c.record(AudioSource::Mic, &[4]);
    let audio = c.finish();
    assert_eq!(audio.mic_samples, vec![1, 2, 4]);
    assert_eq!(audio.sys_samples, vec![3]);
}

#[test]
fn listener_shows_phrases() {
    let start = Instant::now();
    let mut l = Listener::new();
    l.hear(&vec![1; CHUNK_SIZE - 1]);
    assert!(l.next_chunk().is_none());
    l.hear(&[2, 3]);
    let chunk = l.next_chunk().unwrap();
    assert_eq!(chunk[CHUNK_SIZE - 1], 2);
    assert!(l.next_chunk().is_none());
    l.add_words(&vec!["Good".to_string(), "day".to_string()], start);
    assert!(l.due(start + Duration::from_millis(799)).is_none());
    assert_eq!(l.due(start + Duration::from_millis(800)), Some("Good day ".to_string()));
    assert!(l.rest().is_none());
    l.add_words(&vec!["bye".to_string()], start);
    assert_eq!(l.rest(), Some("bye ".to_string()));
}

#[test]
fn session_folders() {
    assert_eq!(session_folder(Some("a/b"), Some("/h"), "t"), "a/b");
    assert_eq!(session_folder(Some("sync"), Some("/h"), "t"), "/h/Documents/meetings/sync");
    assert_eq!(session_folder(None, None, "t"), "./Documents/meetings/meeting_t");
    assert_eq!(
        resolve_session_folder(None, Some("/h"), 1431648061),
        Some("/h/Documents/meetings/meeting_20150515_000101".to_string())
    );
    assert_eq!(resolve_session_folder(None, Some("/h"), i64::MAX), None);
    assert_eq!(
        resolve_session_folder(Some("x"), Some("/h"), i64::MAX),
        Some("/h/Documents/meetings/x".to_string())
    );
    assert_eq!(session_id(1431648061), Some("mtg_20150515_000101".to_string()));
    assert_eq!(session_id(i64::MIN), None);
}

#[test]
fn batch_models() {
    assert_eq!(
        find_whisper_model("/m", true, true),
        Some(("/m/ggml-large-v3-turbo.bin".to_string(), "Whisper Turbo"))
    );
    assert_eq!(
        find_whisper_model("/m/", false, true),
        Some(("/m/ggml-large-v3.bin".to_string(), "Whisper Large V3"))
    );
    assert_eq!(find_whisper_model("/m", false, false), None);
    assert_eq!(
        models_candidates(Some("/bin"), None),
        vec!["models".to_string(), "/bin/models".to_string(), String::new()]
    );
    assert_eq!(models_candidates(None, Some("/d"))[2], "/d/stt-cli/models");
    let dir = |path: &str, has_turbo: bool, has_large: bool| ModelDir {
        path: path.to_string(),
        has_turbo,
        has_large,
    };
    let dirs = vec![dir("a", false, false), dir("b", false, true), dir("c", true, true)];
    assert_eq!(choose_models_dir(&dirs, Some("/d")), Some("b".to_string()));
    let none = vec![dir("a", false, false)];
    assert_eq!(choose_models_dir(&none, Some("/d")), Some("/d/stt-cli/models".to_string()));
    assert_eq!(choose_models_dir(&none, None), None);
    let (segmentation, embedding) = speaker_models("/m");
    assert_eq!(segmentation, "/m/sherpa-onnx-pyannote-segmentation-3-0/model.onnx");
    assert_eq!(embedding, "/m/3dspeaker_speech_eres2net_base_sv_zh-cn_3dspeaker_16k.onnx");
}

#[test]
fn downloads_are_what_is_missing() {
    assert!(missing_downloads("/m", true, true, true).is_empty());
    let all = missing_downloads("/m", false, false, false);
    let targets: Vec<&str> = all.iter().map(|d| d.target.as_str()).collect();
    assert_eq!(
        targets,
        vec![
            "/m/ggml-large-v3-turbo.bin",
            "/m/sherpa-onnx-pyannote-segmentation-3-0.tar.bz2",
            "/m/3dspeaker_speech_eres2net_base_sv_zh-cn_3dspeaker_16k.onnx",
        ]
    );
    assert!(all[1].archive && !all[0].archive && !all[2].archive);
    let one = missing_downloads("/m", true, false, true);
    assert_eq!(one.len(), 1);
    assert_eq!(one[0].failure, "Failed to download sherpa-onnx-pyannote-segmentation-3-0");
}

#[test]
fn devices() {
    assert_eq!(device_line("Mic", Some("Mic")), "  - Mic (default)");
    assert_eq!(device_line("Mic", Some("Other")), "  - Mic");
    assert_eq!(device_line("Mic", None), "  - Mic");
    let names = vec![None, Some("My AirPods Pro".to_string()), Some("AirPods".to_string())];
    assert_eq!(choose_device(&names, "AirPods"), Some(1));
    assert_eq!(choose_device(&names, "Pods P"), Some(1));
    assert_eq!(choose_device(&names, "airpods"), None);
    assert_eq!(choose_device(&names, ""), Some(1));
    assert_eq!(highest_rate(&vec![16000, 48000, 44100, 48000, 8000]), Some(3));
    assert_eq!(highest_rate(&Vec::new()), None);
}

#[test]
fn script_quotes_the_path() {
    assert_eq!(
        launch_script("/a \"b\"\\c"),
        "tell application \"Terminal\"\n  activate\n  do script \"/a \\\"b\\\"\\\\c\"\nend tell"
    );
    assert!(needs_terminal(false, 1));
    assert!(!needs_terminal(true, 1));
    assert!(!needs_terminal(false, 2));
}

#[test]
fn steps_after_the_meeting() {
    assert_eq!(
        post_steps(true, false, false, false),
        vec![
            PostStep::BackUpDraft,
            PostStep::SummariseDraft,
            PostStep::Retranscribe,
            PostStep::Diarise,
            PostStep::Summarise,
        ]
    );
    assert_eq!(post_steps(false, true, false, true), vec![PostStep::Retranscribe]);
}

#[test]
fn paths_are_joined() {
    assert_eq!(join_path("/a", "b"), "/a/b");
    assert_eq!(join_path("/a/", "b"), "/a/b");
    assert_eq!(join_path("", "b"), "b");
    assert_eq!(join_path("/a", "/b"), "/b");
    assert_eq!(join_path("/a", ""), "/a/");
}

#[test]
fn extensions_are_those_of_std() {
    let paths = [
        "/a/b.png", "/a/b.tar.gz", "/a/.png", "/a/..png", "/a/b", "/a/b.", "", "/", ".", "..",
        "a/..", "/a/b.png/", "/a/b.png/.", "/a/b.png//./", "./.", "a.b/c", "/.", "./x.y",
    ];
    for path in paths {
        let std = std::path::Path::new(path).extension().map(|e| e.to_str().unwrap().to_string());
        assert_eq!(file_extension(path), std, "{}", path);
        let _ = std::path::Path::new(path).join("x").to_str().map(|joined| {
            assert_eq!(join_path(path, "x"), joined);
        });
    }
}

#[test]
fn text_is_trimmed_like_std() {
    let samples = ["", " ", "a", " \t\u{a0}a b\u{2003}\u{85}\n", "\u{feff}x", "\u{200b} y ", "\u{3000}"];
    for s in samples {
        assert_eq!(text::trim(s), s.trim());
    }
    for n in 0..0x3100u32 {
        if let Some(c) = char::from_u32(n) {
            assert_eq!(text::is_whitespace(c), c.is_whitespace());
        }
    }
}

#[test]
fn lines_are_those_of_std() {
    let samples = ["", "\n", "a", "a\n", "a\r\nb\rc\n\nd", "\r\n", "a\r", "\n\n", "x\ny\r\n"];
    for s in samples {
        let std: Vec<String> = s.lines().map(|l| l.to_string()).collect();
        assert_eq!(text::lines(s), std);
    }
}

#[test]
fn text_is_searched_like_std() {
    for (s, part) in [("abcab", "cab"), ("abc", ""), ("", ""), ("ab", "abc"), ("aab", "ab"), ("é", "e")] {
        assert_eq!(text::contains(s, part), s.contains(part));
        assert_eq!(text::starts_with(s, part), s.starts_with(part));
        assert_eq!(text::ends_with(s, part), s.ends_with(part));
    }
    assert_eq!(text::to_ascii_lower("PNG É"), "png É");
    assert_eq!(text::join(&vec!["a".to_string(), String::new(), "b".to_string()], ", "), "a, , b");
}

#[test]
fn no_other_character_becomes_a_letter_of_an_image_extension() {
    for n in 0x80..0x11_0000u32 {
        if let Some(c) = char::from_u32(n) {
            let lower: String = c.to_lowercase().collect();
            assert!(!lower.ends_with(|l: char| ".pngjegifwbhcm".contains(l)));
        }
    }
}

#[test]
fn thread_events_carry_segments() {
    let event = AppEvent::Transcript {
        source: AudioSource::Mic,
        text: "x".to_string(),
        start_ms: 1,
        end_ms: 2,
    };
    assert!(matches!(event.clone(), AppEvent::Transcript { source: AudioSource::Mic, .. }));
    assert!(!matches!(AppEvent::Quit, AppEvent::Transcript { .. }));
}

#[test]
fn audio_is_collected_while_the_meeting_runs() {
    assert_eq!(next_round(true, false), Round::Collect);
    assert_eq!(next_round(true, true), Round::Discard);
    assert_eq!(next_round(false, false), Round::Stop);
    assert_eq!(next_round(false, true), Round::Stop);
}

/// The commands that are run when the one at `failing` fails, and the failure.
fn run_downloads(
    there: (bool, bool, bool),
    failing: Option<usize>,
) -> (Vec<DownloadCommand>, Option<&'static str>) {
    let downloads = missing_downloads("/m", there.0, there.1, there.2);
    let mut commands = Vec::new();
    let mut last = None;
    loop {
        match download_step(&downloads, last) {
            DownloadStep::Run(command) => {
                last = Some((command, failing != Some(commands.len())));
                commands.push(command);
            }
            DownloadStep::Failed(failure) => return (commands, Some(failure)),
            DownloadStep::Done => return (commands, None),
        }
    }
}

#[test]
fn missing_models_are_fetched_in_order() {
    let all = vec![
        DownloadCommand::Fetch(0),
        DownloadCommand::Fetch(1),
        DownloadCommand::Unpack(1),
        DownloadCommand::Fetch(2),
    ];
    assert_eq!(run_downloads((false, false, false), None), (all, None));
    assert_eq!(
        run_downloads((true, true, false), None),
        (vec![DownloadCommand::Fetch(0)], None)
    );
    assert_eq!(run_downloads((true, true, true), None), (Vec::new(), None));
}

#[test]
fn the_first_failure_ends_the_downloads() {
    let failures = [
        "Failed to download Whisper Turbo model",
        "Failed to download sherpa-onnx-pyannote-segmentation-3-0",
        "Failed to extract sherpa-onnx-pyannote-segmentation-3-0",
        "Failed to download 3dspeaker model",
    ];
    for (k, failure) in failures.iter().enumerate() {
        let (commands, ended) = run_downloads((false, false, false), Some(k));
        assert_eq!(commands.len(), k + 1);
        assert_eq!(ended, Some(*failure));
    }
}
