use serde_json::Value;
use stt::audio::{copy_samples, mux_audio, samples_from_bytes, ChunkBuffer, Muxed, RecordedAudio};
use stt::event_log::read_events_jsonl;
use stt::kyutai::{
    batch_chunks, batched_words, chunk_words, file_chunks, get_device, AsrMessage, Config,
    DeviceKind, FileTranscript, CHUNK_SIZE,
};
use stt::retranscribe::{
    checked_replace_segments, event_time, replace_segments, sample_range, segment_source,
    sort_by_time, source_range, NewSegment,
};
use stt::speakers::{
    count_speakers, find_speaker, label_speakers, percent_done, segment_span, speaker_label,
    speaker_lines, SpeakerSpan, SpokenLine,
};
use stt::stamp::Timestamp;
use stt::summary::{
    api_key, curl_config, request_body, summary_from_response, summary_of, summary_prompt,
    transcript_line, transcript_text, SummaryError, DEFAULT_SUMMARY_PROMPT,
};
use stt::transcript::{assemble, check_sample_rate, whisper_thread_count, TranscriptSegment};

fn value(text: &str) -> Value {
    serde_json::from_str(text).unwrap()
}

fn segment(text: &str, start_ms: u64, end_ms: u64) -> NewSegment {
    NewSegment {
        ts: Timestamp::from_unix_with_offset(0, 0).unwrap(),
        src: "local",
        text: text.to_string(),
        start_ms,
        end_ms,
    }
}

#[test]
fn segments_are_replaced_and_sorted() {
    let log = "{\"type\":\"session_start\",\"id\":1}\n\
               {\"type\":\"segment\",\"id\":2,\"start_ms\":10}\n\
               {\"type\":\"marker\",\"id\":3,\"offset_ms\":50}\n\
               {\"type\":\"segment\",\"id\":9,\"start_ms\":20}\n\
               {\"type\":\"session_end\",\"id\":4,\"duration_ms\":100}\n";
    let new = vec![segment(" late ", 50, 60), segment("  ", 1, 2), segment("early", 5, 9)];
    let merged = replace_segments(read_events_jsonl(log), &new);
    let order: Vec<u64> = merged.iter().map(|e| e["id"].as_u64().unwrap()).collect();
    assert_eq!(order, vec![1, 6, 3, 5, 4]);
    assert_eq!(
        merged[3],
        value(
            "{\"type\":\"segment\",\"id\":5,\"ts\":\"1970-01-01T00:00:00+00:00\",\
             \"src\":\"local\",\"text\":\"late\",\"start_ms\":50,\"end_ms\":60}"
        )
    );
}

#[test]
fn numbers_may_run_out() {
    let full = vec![value("{\"type\":\"marker\",\"id\":18446744073709551615}")];
    assert!(checked_replace_segments(full, &Vec::new()).is_none());
    let almost = vec![value("{\"type\":\"marker\",\"id\":18446744073709551613}")];
    assert!(checked_replace_segments(almost.clone(), &vec![segment("a", 0, 1)]).is_some());
    assert!(checked_replace_segments(
        almost,
        &vec![segment("a", 0, 1), segment("", 0, 1), segment("b", 1, 2)]
    )
    .is_none());
}

#[test]
fn sorting_by_time_is_stable() {
    let events = vec![
        value("{\"id\":1,\"start_ms\":\"x\",\"offset_ms\":7}"),
        value("{\"id\":2,\"offset_ms\":5}"),
        value("{\"id\":3,\"duration_ms\":4}"),
        value("{\"id\":4,\"offset_ms\":5}"),
        value("{\"id\":5}"),
        value("[]"),
    ];
    assert_eq!(event_time(&events[0]), 0);
    assert_eq!(event_time(&events[2]), 4);
    assert_eq!(event_time(&events[5]), 0);
    let sorted = sort_by_time(events);
    let order: Vec<Option<u64>> = sorted.iter().map(|e| e.get("id").and_then(|v| v.as_u64())).collect();
    assert_eq!(order, vec![Some(1), Some(5), None, Some(3), Some(2), Some(4)]);
}

#[test]
fn sources_of_segments() {
    assert_eq!(sample_range(1, 3, 100), Some((16, 48)));
    assert_eq!(sample_range(1, 30, 100), Some((16, 100)));
    assert_eq!(sample_range(7, 30, 100), None);
    assert_eq!(source_range((16, 48), 30), Some((16, 30)));
    assert_eq!(source_range((16, 48), 16), Some((16, 16)));
    assert_eq!(source_range((16, 48), 15), None);
    assert_eq!(source_range((16, 48), 50), Some((16, 48)));
    assert_eq!(segment_source(true, true, false, true), "unknown");
    assert_eq!(segment_source(true, true, true, true), "local");
    assert_eq!(segment_source(true, true, true, false), "remote");
    assert_eq!(segment_source(true, false, true, false), "local");
    assert_eq!(segment_source(false, true, true, true), "remote");
}

#[test]
fn speakers_are_labelled() {
    let spans = vec![
        SpeakerSpan { start: 0, end: 10, speaker: 3 },
        SpeakerSpan { start: 5, end: 20, speaker: 12 },
        SpeakerSpan { start: 20, end: 30, speaker: 3 },
    ];
    assert_eq!(find_speaker(&spans, 5), Some(3));
    assert_eq!(find_speaker(&spans, 10), Some(12));
    assert_eq!(find_speaker(&spans, 30), None);
    assert_eq!(count_speakers(&spans), 2);
    assert_eq!(speaker_label(3), "speaker_03");
    assert_eq!(speaker_label(112), "speaker_112");
    assert_eq!(speaker_label(-5), "speaker_-5");
    assert_eq!(speaker_label(i32::MIN), "speaker_-2147483648");

    let mut events = vec![
        value("{\"type\":\"segment\",\"start_ms\":1,\"end_ms\":9,\"speaker\":\"old\"}"),
        value("{\"type\":\"marker\",\"start_ms\":1,\"end_ms\":9}"),
        value("{\"type\":\"segment\",\"start_ms\":1}"),
        value("{\"type\":\"segment\",\"start_ms\":40,\"end_ms\":50}"),
        value("7"),
    ];
    assert_eq!(segment_span(&events[0]), Some((1, 9)));
    assert_eq!(segment_span(&events[2]), None);
    let before = events.clone();
    label_speakers(&mut events, &vec![Some(15), Some(15), Some(15), Some(45), None], &spans);
    assert_eq!(events[0]["speaker"], "speaker_12");
    assert_eq!(events[0]["start_ms"].as_u64(), Some(1));
    assert_eq!(events[1..], before[1..]);
}

#[test]
fn file_lines_name_the_speaker() {
    let spans = vec![SpeakerSpan { start: 0, end: 10, speaker: 0 }];
    let lines = vec![
        SpokenLine { stamp: "0.00".to_string(), middle: 4, text: "Hi".to_string() },
        SpokenLine { stamp: "9.50".to_string(), middle: 12, text: "Bye".to_string() },
    ];
    assert_eq!(speaker_lines(&lines, &spans), "[0.00] [speaker_00] Hi\n[9.50] Bye\n");
}

#[test]
fn progress_in_percent() {
    assert_eq!(percent_done(1, 3), 33);
    assert_eq!(percent_done(3, 3), 100);
    assert_eq!(percent_done(5, 0), 0);
    assert_eq!(percent_done(-1, 3), -33);
}

#[test]
fn transcripts_are_assembled() {
    let raw = vec![
        TranscriptSegment { start: 0, end: 100, text: " Hello ".to_string() },
        TranscriptSegment { start: 100, end: 150, text: "  ".to_string() },
        TranscriptSegment { start: 150, end: 300, text: "world.".to_string() },
    ];
    let result = assemble(&raw);
    assert_eq!(result.text, "Hello world.");
    assert_eq!(result.segments.len(), 2);
    assert_eq!(result.segments[0].text, "Hello");
    assert_eq!(result.segments[1].start, 150);
    assert_eq!(result.segments[1].end, 300);
    assert_eq!(whisper_thread_count(Some(2)), 2);
    assert_eq!(whisper_thread_count(Some(64)), 8);
    assert_eq!(whisper_thread_count(None), 4);
    assert!(check_sample_rate(16000).is_ok());
    assert_eq!(
        check_sample_rate(44100).unwrap_err(),
        "Audio must be 16kHz (got 44100Hz). Convert with: ffmpeg -i input.wav -ar 16000 output.wav"
    );
}

#[test]
fn summary_transcript_names_speakers() {
    let events = vec![
        value("{\"type\":\"session_start\",\"id\":1}"),
        value("{\"type\":\"segment\",\"src\":\"mic\",\"text\":\"a\"}"),
        value("{\"type\":\"segment\",\"src\":\"local\",\"text\":\"b\"}"),
        value("{\"type\":\"segment\",\"src\":\"mic\",\"speaker\":\"speaker_01\"}"),
        value("{\"type\":\"marker\",\"label\":\"DECISION\"}"),
        value("{\"type\":\"manual\",\"text\":\"n\"}"),
        value("3"),
    ];
    assert_eq!(transcript_line(&events[0]), None);
    assert_eq!(
        transcript_text(&events),
        "[ME]: a\n[REMOTE]: b\n[speaker_01]: \n[MARKER]: DECISION\n[NOTE]: n"
    );
}

#[test]
fn prompts_are_put_together() {
    assert!(DEFAULT_SUMMARY_PROMPT.starts_with("Please provide a comprehensive summary"));
    assert!(DEFAULT_SUMMARY_PROMPT.ends_with("Format the output in clean Markdown."));
    assert_eq!(
        summary_prompt(None, None, "T"),
        format!("{}\n\n## Transcript\nT", DEFAULT_SUMMARY_PROMPT)
    );
    assert_eq!(
        summary_prompt(Some("P"), Some("C"), "T"),
        "P\n\n## Meeting Context\nC\n\n## Transcript\nT"
    );
}

#[test]
fn requests_and_answers() {
    assert_eq!(
        request_body("some-model", "say \"hi\""),
        "{\"max_tokens\":4096,\"messages\":[{\"content\":\"say \\\"hi\\\"\",\"role\":\"user\"}],\
         \"model\":\"some-model\"}"
    );
    assert_eq!(
        curl_config("k"),
        "header = \"x-api-key: k\"\n\
         header = \"anthropic-version: 2023-06-01\"\n\
         header = \"content-type: application/json\""
    );
    assert_eq!(api_key(Some("a"), Some("b")), Some("a"));
    assert_eq!(api_key(None, Some("b")), Some("b"));
    assert_eq!(api_key(None, None), None);

    let answer = "{\"content\":[{\"text\":\"S\"},{\"text\":\"T\"}]}";
    assert_eq!(summary_from_response(answer.as_bytes()).unwrap(), "S");
    assert_eq!(summary_of(&value("{\"content\":[]}")).unwrap(), "No summary generated");
    assert_eq!(summary_of(&value("[1]")).unwrap(), "No summary generated");
    match summary_from_response(b"{\"error\":{\"type\":\"x\",\"a\":1},\"content\":[]}") {
        Err(SummaryError::Api(e)) => assert_eq!(e, "{\"a\":1,\"type\":\"x\"}"),
        _ => panic!("no error"),
    }
    match summary_from_response(b"oops") {
        Err(SummaryError::NotJson(_)) => {}
        _ => panic!("no error"),
    }
}

#[test]
fn audio_is_muxed() {
    assert!(mux_audio(&[], &[]).is_none());
    match mux_audio(&[1, 2], &[]) {
        Some(Muxed::Single(s)) => assert_eq!(s, vec![1, 2]),
        _ => panic!("no single source"),
    }
    match mux_audio(&[], &[3]) {
        Some(Muxed::Single(s)) => assert_eq!(s, vec![3]),
        _ => panic!("no single source"),
    }
    match mux_audio(&[1, 2], &[3]) {
        Some(Muxed::Pairs(p)) => assert_eq!(p, vec![(1, 3), (2, 0)]),
        _ => panic!("no pairs"),
    }
    let audio = RecordedAudio { mic_samples: copy_samples(&[1, 2, 3]), sys_samples: vec![4] };
    assert_eq!(audio.longest(), 3);
    assert_eq!(audio.memory_bytes(), 16);
    assert_eq!(RecordedAudio::default().longest(), 0);
}

#[test]
fn samples_are_little_endian() {
    let bits = 1.5f32.to_bits();
    let mut data = bits.to_le_bytes().to_vec();
    data.extend_from_slice(&[1, 2, 3]);
    assert_eq!(samples_from_bytes(&data), vec![bits]);
    assert!(samples_from_bytes(&[1, 2, 3]).is_empty());
    assert_eq!(samples_from_bytes(&[255, 255, 255, 255]), vec![u32::MAX]);
}

#[test]
fn chunks_are_taken_in_order() {
    let mut buf = ChunkBuffer::new();
    assert!(!buf.has_chunk());
    assert_eq!(buf.take_chunk(), None);
    assert_eq!(buf.take_or_silence(), vec![0; CHUNK_SIZE]);
    let samples: Vec<u32> = (0..2000).collect();
    buf.extend(&samples);
    assert!(buf.has_chunk());
    assert_eq!(buf.take_chunk(), Some(samples[..CHUNK_SIZE].to_vec()));
    assert_eq!(buf.take_chunk(), None);
    buf.extend(&samples);
    assert_eq!(buf.take_or_silence()[..81], [1920, 1921, 1922].iter().copied().chain(1923..2000).chain(0..1).collect::<Vec<u32>>()[..]);
}

#[test]
fn model_configuration() {
    let config = Config {
        card: 2048,
        text_card: 4000,
        dim: 100,
        n_q: 32,
        context: 375,
        max_period: 100000,
        num_heads: 8,
        num_layers: 16,
        causal: true,
    };
    let lm = config.model_config();
    assert_eq!(lm.transformer.dim_feedforward, 400);
    assert_eq!(lm.transformer.max_seq_len, 16384);
    assert_eq!(lm.transformer.conv_kernel_size, 3);
    assert_eq!(lm.audio_vocab_size, 2049);
    assert_eq!(lm.text_in_vocab_size, 4001);
    assert_eq!(lm.text_out_vocab_size, 4000);
    assert_eq!(lm.audio_codebooks, 32);
    assert_eq!(get_device(true, true, true), DeviceKind::Cpu);
    assert_eq!(get_device(false, true, true), DeviceKind::Metal);
    assert_eq!(get_device(false, false, true), DeviceKind::Cuda);
    assert_eq!(get_device(false, false, false), DeviceKind::Cpu);
}

fn word(text: &str, batch_idx: usize, start: u64) -> AsrMessage {
    AsrMessage::Word { text: text.to_string(), batch_idx, start }
}

#[test]
fn words_of_messages() {
    let msgs = vec![
        word("a", 1, 0),
        AsrMessage::EndWord { stop: 3 },
        AsrMessage::Step { boundary: true },
        word("b", 0, 4),
    ];
    assert_eq!(batched_words(&msgs), vec![(1, "a".to_string()), (0, "b".to_string())]);
    assert_eq!(chunk_words(&msgs), vec!["a".to_string(), "b".to_string()]);
    let batch = batch_chunks(&vec![vec![1, 2], vec![3, 4]]).unwrap();
    assert_eq!(batch.samples, vec![1, 2, 3, 4]);
    assert_eq!((batch.rows, batch.row_len), (2, 2));
    assert!(batch_chunks(&Vec::new()).is_none());
}

#[test]
fn files_are_cut_into_exact_chunks() {
    let chunks = file_chunks(&vec![7; 10]);
    assert_eq!(chunks.len(), 13);
    assert!(chunks.iter().all(|c| c.len() == CHUNK_SIZE));
    assert_eq!(chunks[0][..11], [7, 7, 7, 7, 7, 7, 7, 7, 7, 7, 0]);
    assert_eq!(file_chunks(&vec![1; 1920 * 25 - 24000]).len(), 25);
}

#[test]
fn file_passages() {
    let mut transcript = FileTranscript::new();
    transcript.step(word(" Hel", 0, 1));
    transcript.step(word("lo", 0, 2));
    transcript.step(AsrMessage::EndWord { stop: 5 });
    transcript.step(AsrMessage::EndWord { stop: 6 });
    transcript.step(word(" you", 0, 7));
    transcript.step(AsrMessage::Step { boundary: true });
    transcript.step(word(" there", 0, 8));
    transcript.step(AsrMessage::Step { boundary: false });
    transcript.step(AsrMessage::Step { boundary: true });
    transcript.step(word(" ", 0, 9));
    let segments = transcript.finish();
    let shown: Vec<(String, u64, u64)> =
        segments.into_iter().map(|s| (s.text, s.start, s.end)).collect();
    assert_eq!(
        shown,
        vec![
            ("Hello".to_string(), 1, 5),
            ("you".to_string(), 7, 7),
            ("there".to_string(), 8, 9)
        ]
    );
    assert!(FileTranscript::new().finish().is_empty());
}
