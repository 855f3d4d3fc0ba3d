//! A meeting while it runs: every event is numbered, written to the log and put
//! into the transcript.

use std::time::Instant;
use vstd::prelude::*;

use crate::event_log::{is_log, log_lines};
use crate::events::{AudioSource, Event};
use crate::json::{all_plain, object_text, Member};
use crate::jsonl_writer::JsonlWriter;
use crate::paths::{extension_of, file_extension};
use crate::stamp::Timestamp;
use crate::text;
use crate::text::optional_str;
use crate::tui::app::{optional, App, AppState};
use crate::tui::input::{handle_key_at, key_pressed, Key, KeyAction};

verus! {

/// A meeting that runs.
pub struct LiveMeeting {
    app: App,
    writer: JsonlWriter,
    images: u32,
    log: Ghost<Seq<Event>>,
}

/// What a running meeting holds.
#[verifier::ext_equal]
pub struct Meeting {
    /// The transcript.
    pub app: AppState,
    /// How many images were numbered.
    pub images: u32,
    /// The events that were logged, in that order.
    pub log: Seq<Event>,
}

impl View for LiveMeeting {
    type V = Meeting;

    closed spec fn view(&self) -> Meeting {
        Meeting { app: self.app@, images: self.images, log: self.log@ }
    }
}

/// The members of each event of a log.
pub open spec fn log_members(log: Seq<Event>) -> Seq<Seq<Member>> {
    log.map_values(|event: Event| event.members())
}

impl Meeting {
    /// The events are numbered from one in the order in which they were logged,
    /// the transcript shows exactly the events of the log, and each takes one
    /// line of the log, so that the log is read back as it was written.
    pub open spec fn wf(self) -> bool {
        &&& self.app.wf()
        &&& is_log(log_members(self.log))
        &&& forall|i: int| 0 <= i < self.log.len() ==> (#[trigger] self.log[i]).number() == i + 1
        &&& self.app.events.to_multiset() == self.log.to_multiset()
        &&& self.app.events.len() == self.log.len()
    }

    /// There is room for one more event.
    pub open spec fn has_room(self) -> bool {
        self.log.len() + 2 < usize::MAX
    }

    /// The number of the next event.
    pub open spec fn next_number(self) -> u64 {
        (self.log.len() + 1) as u64
    }

    /// After one more event.
    pub open spec fn with(self, event: Event) -> Meeting {
        Meeting { app: self.app.with_event(event), log: self.log.push(event), ..self }
    }
}

/// The line of an event in the log.
pub open spec fn logged_line(event: Event) -> Seq<char> {
    object_text(event.members()) + "\n"@
}

/// The name of an image: its number with at least three digits, and an
/// extension.
pub open spec fn image_name(number: u32, extension: Seq<char>) -> Seq<char> {
    text::padded(number as nat, 3) + "."@ + extension
}

/// Adding an event keeps the numbers and the transcript in step with the log.
pub proof fn law_transcript_shows_the_log(meeting: Meeting, event: Event)
    requires
        meeting.wf(),
        meeting.has_room(),
        event.number() == meeting.next_number(),
        text::no_control(object_text(event.members())),
    ensures
        meeting.with(event).wf(),
{
    let members = log_members(meeting.log);
    assert(log_members(meeting.log.push(event)) =~= members.push(event.members()));
    assert forall|i: int| 0 <= i < members.push(event.members()).len() implies all_plain(
        #[trigger] members.push(event.members())[i],
    ) && text::no_control(object_text(members.push(event.members())[i])) by {
        if i < members.len() {
            assert(all_plain(members[i]));
        }
    }
    crate::tui::app::law_events_keep_insertion_order(meeting.app, event);
    crate::tui::app::lemma_place_bounds(meeting.app.events, event.offset());
    broadcast use vstd::seq_lib::group_to_multiset_ensures;

    let place = crate::tui::app::place_of(meeting.app.events, event.offset());
    assert(meeting.with(event).app.events == meeting.app.events.insert(place, event));
    assert(meeting.with(event).app.events.to_multiset() == meeting.app.events.to_multiset().insert(
        event,
    ));
    assert(meeting.log.push(event).to_multiset() == meeting.log.to_multiset().insert(event));
}

impl LiveMeeting {
    /// The meeting is in step with its log, and so are the numbers.
    pub open spec fn wf(self) -> bool {
        &&& self@.wf()
        &&& self.is_numbered()
    }

    /// The next number is the one behind the log.
    pub closed spec fn is_numbered(self) -> bool {
        self.writer@ == self@.log.len() + 1
    }

    /// Starts a meeting at `now`: its log and its transcript begin with the
    /// start of the session. The line is what is written to the log.
    pub fn start(
        meeting_title: Option<String>,
        session_id: String,
        ts: Timestamp,
        now: Instant,
    ) -> (started: (LiveMeeting, String))
        ensures
            started.0.wf(),
            ({
                let event = Event::SessionStart { id: 1, ts, session_id };
                let fresh = Meeting {
                    app: AppState::fresh(optional(meeting_title), now, now),
                    images: 0,
                    log: Seq::empty(),
                };
                started.0@ == fresh.with(event) && started.1@ == logged_line(event)
                    && event.is_spelled_out()
            }),
    {
        let mut meeting = LiveMeeting {
            app: App::new_at(meeting_title, now),
            writer: JsonlWriter::new(),
            images: 0,
            log: Ghost(Seq::empty()),
        };
        assert(meeting.app@.events =~= meeting@.log);
        let id: u64 = meeting.writer.peek_id();
        let event = Event::SessionStart { id, ts, session_id };
        let line = meeting.record(event);
        (meeting, line)
    }

    /// Numbers, logs and shows an event. The line is what is written to the log.
    fn record(&mut self, event: Event) -> (line: String)
        requires
            old(self).wf(),
            old(self)@.has_room(),
            event.number() == old(self)@.next_number(),
        ensures
            final(self).wf(),
            final(self)@ == old(self)@.with(event),
            line@ == logged_line(event),
            event.is_spelled_out(),
    {
        let _ = self.writer.next_id();
        let line = self.writer.write(&event).line;
        proof {
            law_transcript_shows_the_log(old(self)@, event);
        }
        let ghost logged = event;
        self.app.add_event(event);
        self.log = Ghost(self.log@.push(logged));
        assert(self@ =~= old(self)@.with(logged));
        line
    }

    /// The transcript.
    pub fn app(&self) -> (app: &App)
        ensures
            app@ == self@.app,
    {
        &self.app
    }

    /// How many images were numbered.
    pub fn images(&self) -> (n: u32)
        ensures
            n == self@.images,
    {
        self.images
    }

    /// Handles a key press at `now`.
    pub fn press(&mut self, key: Key, visible_height: usize, now: Instant, home: Option<&str>) -> (
    action: KeyAction)
        requires
            old(self).wf(),
        ensures
            final(self).wf(),
            final(self)@.log == old(self)@.log,
            final(self)@.images == old(self)@.images,
            (final(self)@.app, action@) == key_pressed(
                old(self)@.app,
                key,
                visible_height as int,
                now,
                optional_str(home),
            ),
    {
        proof {
            crate::tui::input::law_keys_keep_the_transcript(
                self@.app,
                key,
                visible_height as int,
                now,
                optional_str(home),
            );
        }
        handle_key_at(&mut self.app, key, visible_height, now, home)
    }

    /// Adds a marker at `now`.
    pub fn add_marker(&mut self, label: String, ts: Timestamp, now: Instant) -> (line: String)
        requires
            old(self).wf(),
            old(self)@.has_room(),
        ensures
            final(self).wf(),
            ({
                let event = Event::Marker {
                    id: old(self)@.next_number(),
                    ts,
                    offset_ms: old(self)@.app.elapsed_at(now),
                    label,
                };
                final(self)@ == old(self)@.with(event) && line@ == logged_line(event)
                    && event.is_spelled_out()
            }),
    {
        let id: u64 = self.writer.peek_id();
        let offset_ms: u64 = self.app.elapsed_ms_at(now);
        self.record(Event::Marker { id, ts, offset_ms, label })
    }

    /// Adds a note at `now`.
    pub fn add_note(&mut self, text: String, ts: Timestamp, now: Instant) -> (line: String)
        requires
            old(self).wf(),
            old(self)@.has_room(),
        ensures
            final(self).wf(),
            ({
                let event = Event::Manual {
                    id: old(self)@.next_number(),
                    ts,
                    offset_ms: old(self)@.app.elapsed_at(now),
                    text,
                };
                final(self)@ == old(self)@.with(event) && line@ == logged_line(event)
                    && event.is_spelled_out()
            }),
    {
        let id: u64 = self.writer.peek_id();
        let offset_ms: u64 = self.app.elapsed_ms_at(now);
        self.record(Event::Manual { id, ts, offset_ms, text })
    }

    /// Numbers the next screenshot and returns the name of its file.
    pub fn next_screenshot(&mut self) -> (name: String)
        requires
            old(self).wf(),
            old(self)@.images < u32::MAX,
        ensures
            final(self).wf(),
            final(self)@ == (Meeting { images: (old(self)@.images + 1) as u32, ..old(self)@ }),
            name@ == image_name(final(self)@.images, "png"@),
    {
        self.next_image("png")
    }

    /// Numbers the next imported image and returns the name of its copy, which
    /// has the extension of the imported file.
    pub fn next_import(&mut self, path: &str) -> (name: String)
        requires
            old(self).wf(),
            old(self)@.images < u32::MAX,
        ensures
            final(self).wf(),
            final(self)@ == (Meeting { images: (old(self)@.images + 1) as u32, ..old(self)@ }),
            name@ == image_name(
                final(self)@.images,
                match extension_of(path@) {
                    Some(extension) => extension,
                    None => "png"@,
                },
            ),
    {
        match file_extension(path) {
            Some(extension) => self.next_image(extension.as_str()),
            None => self.next_image("png"),
        }
    }

    fn next_image(&mut self, extension: &str) -> (name: String)
        requires
            old(self).wf(),
            old(self)@.images < u32::MAX,
        ensures
            final(self).wf(),
            final(self)@ == (Meeting { images: (old(self)@.images + 1) as u32, ..old(self)@ }),
            name@ == image_name(final(self)@.images, extension@),
    {
        self.images = self.images + 1;
        let mut name = String::new();
        text::push_padded(&mut name, self.images as u64, 3);
        name.append(".");
        name.append(extension);
        name
    }

    /// Adds an image that was taken or imported, at `now`.
    pub fn add_image(&mut self, filename: String, ts: Timestamp, now: Instant) -> (line: String)
        requires
            old(self).wf(),
            old(self)@.has_room(),
        ensures
            final(self).wf(),
            ({
                let event = Event::Screenshot {
                    id: old(self)@.next_number(),
                    ts,
                    offset_ms: old(self)@.app.elapsed_at(now),
                    filename,
                };
                final(self)@ == old(self)@.with(event) && line@ == logged_line(event)
                    && event.is_spelled_out()
            }),
    {
        let id: u64 = self.writer.peek_id();
        let offset_ms: u64 = self.app.elapsed_ms_at(now);
        self.record(Event::Screenshot { id, ts, offset_ms, filename })
    }

    /// Adds what was said.
    pub fn add_segment(
        &mut self,
        src: AudioSource,
        text: String,
        start_ms: u64,
        end_ms: u64,
        ts: Timestamp,
    ) -> (line: String)
        requires
            old(self).wf(),
            old(self)@.has_room(),
        ensures
            final(self).wf(),
            ({
                let event = Event::Segment {
                    id: old(self)@.next_number(),
                    ts,
                    src,
                    text,
                    start_ms,
                    end_ms,
                    speaker: None,
                };
                final(self)@ == old(self)@.with(event) && line@ == logged_line(event)
                    && event.is_spelled_out()
            }),
    {
        let id: u64 = self.writer.peek_id();
        self.record(Event::Segment { id, ts, src, text, start_ms, end_ms, speaker: None })
    }

    /// Ends the meeting at `now`. The end of the session is logged and not
    /// shown.
    pub fn end(self, ts: Timestamp, now: Instant) -> (line: String)
        requires
            self.wf(),
            self@.has_room(),
        ensures
            ({
                let event = Event::SessionEnd {
                    id: self@.next_number(),
                    ts,
                    duration_ms: self@.app.elapsed_at(now),
                };
                line@ == logged_line(event) && event.is_spelled_out()
            }),
    {
        let id: u64 = self.writer.peek_id();
        let duration_ms: u64 = self.app.elapsed_ms_at(now);
        let event = Event::SessionEnd { id, ts, duration_ms };
        self.writer.write(&event).line
    }
}

/// The lines of the events of a log, one after the other, are the log.
pub proof fn law_log_grows_by_lines(log: Seq<Event>, event: Event)
    ensures
        text::line_block(log_lines(log_members(log.push(event))))
            == text::line_block(log_lines(log_members(log))) + logged_line(event),
        all_plain(event.members()),
{
    let before = log_lines(log_members(log));
    text::lemma_line_block_push(before, object_text(event.members()));
    assert(log_lines(log_members(log.push(event))) =~= before.push(
        object_text(event.members()),
    ));
    assert(text::line_block(before) + object_text(event.members()) + "\n"@ =~= text::line_block(
        before,
    ) + logged_line(event));
}

/// An image is named by its number, with at least three digits, and its
/// extension; a line of the log ends with a line break, and the letters of the
/// event stand before it.
pub proof fn law_images_and_lines(number: u32, extension: Seq<char>, event: Event)
    ensures
        text::has_suffix(image_name(number, extension), "."@ + extension),
        text::has_prefix(image_name(number, extension), text::padded(number as nat, 3)),
        image_name(number, extension).len() == text::padded(number as nat, 3).len() + 1
            + extension.len(),
        event.is_spelled_out() ==> logged_line(event) == crate::json::spelled_object(
            event.members(),
        ).push('\n'),
{
    let name = image_name(number, extension);
    let digits = text::padded(number as nat, 3);
    reveal_strlit(".");
    reveal_strlit("\n");
    assert(name.skip(name.len() - extension.len() - 1) =~= "."@ + extension);
    assert(name.take(digits.len() as int) =~= digits);
    assert(logged_line(event) =~= object_text(event.members()).push('\n'));
}

/// An event is logged behind all others, with the number behind theirs, and is
/// put into the transcript; no image is numbered by it.
pub proof fn law_events_are_logged_behind(meeting: Meeting, event: Event)
    requires
        meeting.has_room(),
    ensures
        meeting.with(event).log == meeting.log.push(event),
        meeting.with(event).app == meeting.app.with_event(event),
        meeting.with(event).images == meeting.images,
        meeting.next_number() == meeting.log.len() + 1,
{
}

} // verus!
