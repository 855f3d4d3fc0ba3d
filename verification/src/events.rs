//! The events of a meeting, as they are shown and as they are written to the
//! event log, one JSON object per line.

use serde_json::Value;
use vstd::prelude::*;

use crate::json;
use crate::json::{
    all_plain, escaped, held, json, lemma_escaped_same, lemma_member_spelled, object_text,
    spelled_member, spelled_object, Json, JsonNumber, Member,
};
use crate::stamp::Timestamp;
use crate::text;

verus! {

/// Audio source identifier.
#[derive(Debug, Clone, Copy, PartialEq, Eq, Structural)]
pub enum AudioSource {
    /// The microphone.
    Mic,
    /// The system audio.
    Sys,
}

impl AudioSource {
    /// The name shown in the transcript.
    pub open spec fn shown(self) -> Seq<char> {
        match self {
            AudioSource::Mic => "MIC"@,
            AudioSource::Sys => "SYS"@,
        }
    }

    /// The name written to the event log.
    pub open spec fn logged(self) -> Seq<char> {
        match self {
            AudioSource::Mic => "mic"@,
            AudioSource::Sys => "sys"@,
        }
    }

    /// The name shown in the transcript.
    pub fn label(self) -> (s: &'static str)
        ensures
            s@ == self.shown(),
    {
        match self {
            AudioSource::Mic => "MIC",
            AudioSource::Sys => "SYS",
        }
    }

    /// The name written to the event log.
    pub fn log_name(self) -> (s: &'static str)
        ensures
            s@ == self.logged(),
    {
        match self {
            AudioSource::Mic => "mic",
            AudioSource::Sys => "sys",
        }
    }
}

/// Event types that are written to the event log.
#[derive(Debug, Clone)]
pub enum Event {
    /// Session started.
    SessionStart {
        /// The number of the event.
        id: u64,
        /// When it was logged.
        ts: Timestamp,
        /// The name of the session.
        session_id: String,
    },
    /// Transcribed audio segment.
    Segment {
        /// The number of the event.
        id: u64,
        /// When it was logged.
        ts: Timestamp,
        /// Where the audio came from.
        src: AudioSource,
        /// What was said.
        text: String,
        /// When the segment starts, in milliseconds of the session.
        start_ms: u64,
        /// When the segment ends, in milliseconds of the session.
        end_ms: u64,
        /// Who spoke, where that is known.
        speaker: Option<String>,
    },
    /// User-inserted marker (e.g., ACTION_ITEM, DECISION).
    Marker {
        /// The number of the event.
        id: u64,
        /// When it was logged.
        ts: Timestamp,
        /// When it happened, in milliseconds of the session.
        offset_ms: u64,
        /// What the user called it.
        label: String,
    },
    /// User-inserted manual note.
    Manual {
        /// The number of the event.
        id: u64,
        /// When it was logged.
        ts: Timestamp,
        /// When it happened, in milliseconds of the session.
        offset_ms: u64,
        /// What the user wrote.
        text: String,
    },
    /// Session ended.
    SessionEnd {
        /// The number of the event.
        id: u64,
        /// When it was logged.
        ts: Timestamp,
        /// How long the session was, in milliseconds.
        duration_ms: u64,
    },
    /// Screenshot captured.
    Screenshot {
        /// The number of the event.
        id: u64,
        /// When it was logged.
        ts: Timestamp,
        /// When it happened, in milliseconds of the session.
        offset_ms: u64,
        /// The name of the image file.
        filename: String,
    },
}

/// A duration as minutes and seconds, each with at least two digits.
pub open spec fn clock_text(ms: u64) -> Seq<char> {
    let secs = ms as nat / 1000;
    text::padded(secs / 60, 2) + ":"@ + text::padded(secs % 60, 2)
}

/// A string in the event log.
pub open spec fn text_json(s: Seq<char>) -> Json {
    Json::Text(s)
}

/// A number in the event log.
pub open spec fn number_json(n: u64) -> Json {
    Json::Number(JsonNumber::Natural(n))
}

/// A duration as minutes and seconds, each with at least two digits.
pub fn format_ms(ms: u64) -> (s: String)
    ensures
        s@ == clock_text(ms),
{
    let secs: u64 = ms / 1000;
    let mut s = String::new();
    text::push_padded(&mut s, secs / 60, 2);
    s.append(":");
    text::push_padded(&mut s, secs % 60, 2);
    s
}

impl Event {
    /// The time in the session by which events are ordered.
    pub open spec fn offset(self) -> u64 {
        match self {
            Event::SessionStart { .. } => 0,
            Event::Segment { start_ms, .. } => start_ms,
            Event::Marker { offset_ms, .. } => offset_ms,
            Event::Manual { offset_ms, .. } => offset_ms,
            Event::Screenshot { offset_ms, .. } => offset_ms,
            Event::SessionEnd { duration_ms, .. } => duration_ms,
        }
    }

    /// The number of the event.
    pub open spec fn number(self) -> u64 {
        match self {
            Event::SessionStart { id, .. } => id,
            Event::Segment { id, .. } => id,
            Event::Marker { id, .. } => id,
            Event::Manual { id, .. } => id,
            Event::SessionEnd { id, .. } => id,
            Event::Screenshot { id, .. } => id,
        }
    }

    /// The line that stands for the event in the transcript.
    pub open spec fn shown(self) -> Seq<char> {
        match self {
            Event::SessionStart { session_id, .. } => {
                "─── Session: "@ + session_id@ + " ───"@
            },
            Event::Segment { src, text, start_ms, .. } => {
                "["@ + clock_text(start_ms) + "] ["@ + src.shown() + "] "@ + text@
            },
            Event::Marker { offset_ms, label, .. } => {
                "["@ + clock_text(offset_ms) + "] [MRK] 📌 "@ + label@
            },
            Event::Manual { offset_ms, text, .. } => {
                "["@ + clock_text(offset_ms) + "] [NOTE] ✏️  "@ + text@
            },
            Event::SessionEnd { duration_ms, .. } => {
                "─── Session ended ("@ + clock_text(duration_ms) + ") ───"@
            },
            Event::Screenshot { offset_ms, filename, .. } => {
                "["@ + clock_text(offset_ms) + "] [IMG] 📷 "@ + filename@
            },
        }
    }

    /// The members of the object that stands for the event in the log, in
    /// order.
    pub open spec fn members(self) -> Seq<Member> {
        match self {
            Event::SessionStart { id, ts, session_id } => seq![
                ("type"@, text_json("session_start"@)),
                ("id"@, number_json(id)),
                ("ts"@, text_json(ts@)),
                ("session_id"@, text_json(session_id@)),
            ],
            Event::Segment { id, ts, src, text, start_ms, end_ms, speaker } => {
                let always = seq![
                    ("type"@, text_json("segment"@)),
                    ("id"@, number_json(id)),
                    ("ts"@, text_json(ts@)),
                    ("src"@, text_json(src.logged())),
                    ("text"@, text_json(text@)),
                    ("start_ms"@, number_json(start_ms)),
                    ("end_ms"@, number_json(end_ms)),
                ];
                match speaker {
                    Some(name) => always.push(("speaker"@, text_json(name@))),
                    None => always,
                }
            },
            Event::Marker { id, ts, offset_ms, label } => seq![
                ("type"@, text_json("marker"@)),
                ("id"@, number_json(id)),
                ("ts"@, text_json(ts@)),
                ("offset_ms"@, number_json(offset_ms)),
                ("label"@, text_json(label@)),
            ],
            Event::Manual { id, ts, offset_ms, text } => seq![
                ("type"@, text_json("manual"@)),
                ("id"@, number_json(id)),
                ("ts"@, text_json(ts@)),
                ("offset_ms"@, number_json(offset_ms)),
                ("text"@, text_json(text@)),
            ],
            Event::SessionEnd { id, ts, duration_ms } => seq![
                ("type"@, text_json("session_end"@)),
                ("id"@, number_json(id)),
                ("ts"@, text_json(ts@)),
                ("duration_ms"@, number_json(duration_ms)),
            ],
            Event::Screenshot { id, ts, offset_ms, filename } => seq![
                ("type"@, text_json("screenshot"@)),
                ("id"@, number_json(id)),
                ("ts"@, text_json(ts@)),
                ("offset_ms"@, number_json(offset_ms)),
                ("filename"@, text_json(filename@)),
            ],
        }
    }

    /// What the type of the event is called in the log.
    pub open spec fn kind(self) -> Seq<char> {
        match self {
            Event::SessionStart { .. } => "session_start"@,
            Event::Segment { .. } => "segment"@,
            Event::Marker { .. } => "marker"@,
            Event::Manual { .. } => "manual"@,
            Event::SessionEnd { .. } => "session_end"@,
            Event::Screenshot { .. } => "screenshot"@,
        }
    }

    /// The event takes one line of the log, in which every letter is known.
    pub open spec fn is_spelled_out(self) -> bool {
        &&& text::no_control(object_text(self.members()))
        &&& object_text(self.members()) == spelled_object(self.members())
    }

    /// The offset in milliseconds from session start (for display ordering).
    pub fn offset_ms(&self) -> (ms: u64)
        ensures
            ms == self.offset(),
    {
        match self {
            Event::SessionStart { .. } => 0,
            Event::Segment { start_ms, .. } => *start_ms,
            Event::Marker { offset_ms, .. } => *offset_ms,
            Event::Manual { offset_ms, .. } => *offset_ms,
            Event::Screenshot { offset_ms, .. } => *offset_ms,
            Event::SessionEnd { duration_ms, .. } => *duration_ms,
        }
    }

    /// The line that stands for the event in the transcript.
    pub fn display_line(&self) -> (line: String)
        ensures
            line@ == self.shown(),
    {
        let mut line = String::new();
        match self {
            Event::SessionStart { session_id, .. } => {
                line.append("─── Session: ");
                line.append(session_id.as_str());
                line.append(" ───");
            },
            Event::Segment { src, text, start_ms, .. } => {
                line.append("[");
                line.append(format_ms(*start_ms).as_str());
                line.append("] [");
                line.append(src.label());
                line.append("] ");
                line.append(text.as_str());
            },
            Event::Marker { offset_ms, label, .. } => {
                line.append("[");
                line.append(format_ms(*offset_ms).as_str());
                line.append("] [MRK] 📌 ");
                line.append(label.as_str());
            },
            Event::Manual { offset_ms, text, .. } => {
                line.append("[");
                line.append(format_ms(*offset_ms).as_str());
                line.append("] [NOTE] ✏️  ");
                line.append(text.as_str());
            },
            Event::SessionEnd { duration_ms, .. } => {
                line.append("─── Session ended (");
                line.append(format_ms(*duration_ms).as_str());
                line.append(") ───");
            },
            Event::Screenshot { offset_ms, filename, .. } => {
                line.append("[");
                line.append(format_ms(*offset_ms).as_str());
                line.append("] [IMG] 📷 ");
                line.append(filename.as_str());
            },
        }
        line
    }

    /// The event as one line of the event log, without the line break.
    pub fn log_line(&self) -> (line: String)
        ensures
            line@ == object_text(self.members()),
            line@ == spelled_object(self.members()),
            text::no_control(line@),
            all_plain(self.members()),
    {
        let mut members: Vec<(&'static str, Value)> = Vec::new();
        match self {
            Event::SessionStart { id, ts, session_id } => {
                members.push(("type", text_member("session_start")));
                members.push(("id", json::number_value(*id)));
                members.push(("ts", text_member(ts.as_str())));
                members.push(("session_id", text_member(session_id.as_str())));
            },
            Event::Segment { id, ts, src, text, start_ms, end_ms, speaker } => {
                members.push(("type", text_member("segment")));
                members.push(("id", json::number_value(*id)));
                members.push(("ts", text_member(ts.as_str())));
                members.push(("src", text_member(src.log_name())));
                members.push(("text", text_member(text.as_str())));
                members.push(("start_ms", json::number_value(*start_ms)));
                members.push(("end_ms", json::number_value(*end_ms)));
                if let Some(name) = speaker {
                    members.push(("speaker", text_member(name.as_str())));
                }
            },
            Event::Marker { id, ts, offset_ms, label } => {
                members.push(("type", text_member("marker")));
                members.push(("id", json::number_value(*id)));
                members.push(("ts", text_member(ts.as_str())));
                members.push(("offset_ms", json::number_value(*offset_ms)));
                members.push(("label", text_member(label.as_str())));
            },
            Event::Manual { id, ts, offset_ms, text } => {
                members.push(("type", text_member("manual")));
                members.push(("id", json::number_value(*id)));
                members.push(("ts", text_member(ts.as_str())));
                members.push(("offset_ms", json::number_value(*offset_ms)));
                members.push(("text", text_member(text.as_str())));
            },
            Event::SessionEnd { id, ts, duration_ms } => {
                members.push(("type", text_member("session_end")));
                members.push(("id", json::number_value(*id)));
                members.push(("ts", text_member(ts.as_str())));
                members.push(("duration_ms", json::number_value(*duration_ms)));
            },
            Event::Screenshot { id, ts, offset_ms, filename } => {
                members.push(("type", text_member("screenshot")));
                members.push(("id", json::number_value(*id)));
                members.push(("ts", text_member(ts.as_str())));
                members.push(("offset_ms", json::number_value(*offset_ms)));
                members.push(("filename", text_member(filename.as_str())));
            },
        }
        assert(held(members@) =~= self.members());
        json::object_line(&members)
    }
}

/// A string in the event log.
fn text_member(s: &str) -> (v: Value)
    ensures
        json(v) == text_json(s@),
{
    json::text_value(s.to_owned())
}

proof fn lemma_kind_is_plain(event: Event)
    ensures
        escaped(event.kind()) == event.kind(),
{
    reveal_strlit("session_start");
    reveal_strlit("segment");
    reveal_strlit("marker");
    reveal_strlit("manual");
    reveal_strlit("session_end");
    reveal_strlit("screenshot");
    lemma_escaped_same(event.kind());
}

/// A line of the log holds the type and the number of its event, and that of a
/// segment the source, in just these letters.
pub proof fn law_line_names_the_type(event: Event)
    ensures
        ({
            let line = spelled_object(event.members());
            &&& text::has_part(line, "\"type\":\""@ + event.kind() + "\""@)
            &&& text::has_part(line, "\"id\":"@ + text::decimal(event.number() as nat))
            &&& event matches Event::Segment { src, .. } ==> text::has_part(
                line,
                "\"src\":\""@ + src.logged() + "\""@,
            )
        }),
{
    let members = event.members();
    reveal_strlit("\"");
    reveal_strlit(":");
    reveal_strlit("type");
    reveal_strlit("id");
    reveal_strlit("\"type\":\"");
    reveal_strlit("\"id\":");
    lemma_escaped_same("type"@);
    lemma_escaped_same("id"@);
    lemma_kind_is_plain(event);
    lemma_member_spelled(members, 0);
    lemma_member_spelled(members, 1);
    assert(spelled_member(members[0]) =~= "\"type\":\""@ + event.kind() + "\""@);
    assert(spelled_member(members[1]) =~= "\"id\":"@ + text::decimal(event.number() as nat));
    if let Event::Segment { src, .. } = event {
        reveal_strlit("src");
        reveal_strlit("mic");
        reveal_strlit("sys");
        reveal_strlit("\"src\":\"");
        lemma_escaped_same("src"@);
        lemma_escaped_same(src.logged());
        lemma_member_spelled(members, 3);
        assert(spelled_member(members[3]) =~= "\"src\":\""@ + src.logged() + "\""@);
    }
}

/// A time is shown as all of its whole minutes, however many there are, and the
/// seconds that are left.
pub proof fn law_times_are_minutes_and_seconds(minutes: nat, seconds: nat, rest: nat)
    requires
        seconds < 60,
        rest < 1000,
        60_000 * minutes + 1000 * seconds + rest <= u64::MAX,
    ensures
        clock_text((60_000 * minutes + 1000 * seconds + rest) as u64) == text::padded(minutes, 2)
            + ":"@ + text::padded(seconds, 2),
{
    let ms = 60_000 * minutes + 1000 * seconds + rest;
    assert(ms / 1000 == 60 * minutes + seconds);
    assert((60 * minutes + seconds) / 60 == minutes);
    assert((60 * minutes + seconds) % 60 == seconds);
}

/// An event stands at its own time: a segment where it starts, the start of the
/// session at the beginning, its end where it ends.
pub proof fn law_events_have_their_time(event: Event)
    ensures
        match event {
            Event::SessionStart { id, .. } => event.offset() == 0 && event.number() == id,
            Event::Segment { id, start_ms, .. } => event.offset() == start_ms && event.number()
                == id,
            Event::Marker { id, offset_ms, .. } => event.offset() == offset_ms && event.number()
                == id,
            Event::Manual { id, offset_ms, .. } => event.offset() == offset_ms && event.number()
                == id,
            Event::Screenshot { id, offset_ms, .. } => event.offset() == offset_ms
                && event.number() == id,
            Event::SessionEnd { id, duration_ms, .. } => event.offset() == duration_ms
                && event.number() == id,
        },
{
}

/// The transcript shows all that was said, marked, noted or captured, behind its
/// time and where it came from.
pub proof fn law_transcript_shows_all_that_was_said(event: Event)
    ensures
        match event {
            Event::Segment { src, text, start_ms, .. } => {
                &&& src == AudioSource::Mic ==> event.shown() == "["@ + clock_text(start_ms)
                    + "] [MIC] "@ + text@
                &&& src == AudioSource::Sys ==> event.shown() == "["@ + clock_text(start_ms)
                    + "] [SYS] "@ + text@
            },
            Event::Marker { offset_ms, label, .. } => {
                &&& text::has_prefix(event.shown(), "["@ + clock_text(offset_ms) + "] [MRK] "@)
                &&& text::has_suffix(event.shown(), label@)
            },
            Event::Manual { offset_ms, text, .. } => {
                &&& text::has_prefix(event.shown(), "["@ + clock_text(offset_ms) + "] [NOTE] "@)
                &&& text::has_suffix(event.shown(), text@)
            },
            Event::Screenshot { offset_ms, filename, .. } => {
                &&& text::has_prefix(event.shown(), "["@ + clock_text(offset_ms) + "] [IMG] "@)
                &&& text::has_suffix(event.shown(), filename@)
            },
            Event::SessionStart { session_id, .. } => text::has_part(event.shown(), session_id@),
            Event::SessionEnd { duration_ms, .. } => text::has_part(
                event.shown(),
                clock_text(duration_ms),
            ),
        },
{
    let shown = event.shown();
    match event {
        Event::Segment { src, text, start_ms, .. } => {
            reveal_strlit("] [");
            reveal_strlit("] ");
            reveal_strlit("MIC");
            reveal_strlit("SYS");
            reveal_strlit("] [MIC] ");
            reveal_strlit("] [SYS] ");
            assert("] ["@ + "MIC"@ + "] "@ =~= "] [MIC] "@);
            assert("] ["@ + "SYS"@ + "] "@ =~= "] [SYS] "@);
            if src == AudioSource::Mic {
                assert(shown =~= "["@ + clock_text(start_ms) + "] [MIC] "@ + text@);
            } else {
                assert(shown =~= "["@ + clock_text(start_ms) + "] [SYS] "@ + text@);
            }
        },
        Event::Marker { offset_ms, label, .. } => {
            reveal_strlit("] [MRK] 📌 ");
            reveal_strlit("] [MRK] ");
            let head = "["@ + clock_text(offset_ms) + "] [MRK] "@;
            assert(shown.take(head.len() as int) =~= head);
            assert(shown.skip(shown.len() - label@.len()) =~= label@);
        },
        Event::Manual { offset_ms, text, .. } => {
            reveal_strlit("] [NOTE] ✏️  ");
            reveal_strlit("] [NOTE] ");
            let head = "["@ + clock_text(offset_ms) + "] [NOTE] "@;
            assert(shown.take(head.len() as int) =~= head);
            assert(shown.skip(shown.len() - text@.len()) =~= text@);
        },
        Event::Screenshot { offset_ms, filename, .. } => {
            reveal_strlit("] [IMG] 📷 ");
            reveal_strlit("] [IMG] ");
            let head = "["@ + clock_text(offset_ms) + "] [IMG] "@;
            assert(shown.take(head.len() as int) =~= head);
            assert(shown.skip(shown.len() - filename@.len()) =~= filename@);
        },
        Event::SessionStart { session_id, .. } => {
            let from = "─── Session: "@.len() as int;
            assert(shown.subrange(from, from + session_id@.len()) =~= session_id@);
            assert(text::has_part_at(shown, session_id@, from));
        },
        Event::SessionEnd { duration_ms, .. } => {
            let from = "─── Session ended ("@.len() as int;
            let time = clock_text(duration_ms);
            assert(shown.subrange(from, from + time.len()) =~= time);
            assert(text::has_part_at(shown, time, from));
        },
    }
}

} // verus!
