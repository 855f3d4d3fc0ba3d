//! The state of the interactive transcript.

use std::time::Instant;
use vstd::prelude::*;

use crate::clock::{millis64, millis64_since, millis_between, millis_since};
use crate::events::Event;
use crate::paths::{join_path, path_below};
use crate::text;
use crate::text::optional_str;

verus! {

/// Input mode for the transcript.
#[derive(Debug, Clone, Copy, PartialEq, Eq, Structural)]
pub enum InputMode {
    /// Normal mode - scrolling, shortcuts.
    Normal,
    /// Entering a marker label.
    Marker,
    /// Entering a manual note.
    Note,
}

/// Pasted characters that come further apart than this, in milliseconds, are
/// typed and not pasted.
pub const PASTE_GAP_MS: u64 = 500;

/// The state of the interactive transcript.
pub struct App {
    /// All events (sorted by offset for display).
    pub events: Vec<Event>,
    /// Current input mode.
    pub input_mode: InputMode,
    /// Text buffer for marker/note input.
    pub input_buffer: String,
    /// Paste buffer for detecting dragged file paths.
    pub paste_buffer: String,
    /// Last paste activity time (for timeout).
    pub last_paste_time: Instant,
    /// Scroll position (0 = top).
    pub scroll: usize,
    /// Whether auto-scroll is enabled (jump to bottom on new events).
    pub auto_scroll: bool,
    /// Session start time for elapsed calculation.
    pub session_start: Instant,
    /// Mic enabled status.
    pub mic_on: bool,
    /// System audio enabled status.
    pub sys_on: bool,
    /// Whether the app should quit.
    pub should_quit: bool,
    /// Whether audio is discarded for now.
    pub paused: bool,
    /// Meeting title displayed in the header.
    pub meeting_title: Option<String>,
}

/// What the transcript holds.
#[verifier::ext_equal]
pub struct AppState {
    /// The events, in the order in which they are shown.
    pub events: Seq<Event>,
    /// The input mode.
    pub input_mode: InputMode,
    /// What was typed as a marker or a note so far.
    pub input: Seq<char>,
    /// What may be a pasted path so far.
    pub paste: Seq<char>,
    /// When the last character of it came.
    pub last_paste: Instant,
    /// The scroll position.
    pub scroll: int,
    /// Whether the end of the transcript is followed.
    pub auto_scroll: bool,
    /// When the session started.
    pub session_start: Instant,
    /// Whether the microphone is on.
    pub mic_on: bool,
    /// Whether the system audio is on.
    pub sys_on: bool,
    /// Whether to quit.
    pub should_quit: bool,
    /// Whether audio is discarded for now.
    pub paused: bool,
    /// The title of the meeting.
    pub meeting_title: Option<Seq<char>>,
}

/// The characters of an optional string.
pub open spec fn optional(s: Option<String>) -> Option<Seq<char>> {
    match s {
        Some(text) => Some(text@),
        None => None,
    }
}

/// The events are in the order of their offsets.
pub open spec fn in_order(events: Seq<Event>) -> bool {
    forall|i: int, j: int|
        0 <= i <= j < events.len() ==> (#[trigger] events[i]).offset() <= (
        #[trigger] events[j]).offset()
}

/// How many events an event with this offset is put behind: those up to the
/// last one whose offset is not greater.
pub open spec fn place_of(events: Seq<Event>, offset: u64) -> int
    decreases events.len(),
{
    if events.len() == 0 || events.last().offset() <= offset {
        events.len() as int
    } else {
        place_of(events.drop_last(), offset)
    }
}

/// The name ends like an image file, in upper or lower case.
pub open spec fn is_image_name(name: Seq<char>) -> bool {
    let lower = name.map_values(|c: char| text::ascii_lower(c));
    ||| text::has_suffix(lower, ".png"@)
    ||| text::has_suffix(lower, ".jpg"@)
    ||| text::has_suffix(lower, ".jpeg"@)
    ||| text::has_suffix(lower, ".gif"@)
    ||| text::has_suffix(lower, ".webp"@)
    ||| text::has_suffix(lower, ".heic"@)
    ||| text::has_suffix(lower, ".bmp"@)
}

/// The image that a pasted text names: an absolute path or one below the home
/// directory, which is put in where it is known.
pub open spec fn image_path(paste: Seq<char>, home: Option<Seq<char>>) -> Option<Seq<char>> {
    let name = text::trimmed(paste);
    if !text::has_prefix(name, "/"@) && !text::has_prefix(name, "~"@) {
        None
    } else if !is_image_name(name) {
        None
    } else if text::has_prefix(name, "~/"@) && home is Some {
        Some(path_below(home->0, name.skip(2)))
    } else {
        Some(name)
    }
}

impl AppState {
    /// The state at the start of a session.
    pub open spec fn fresh(
        meeting_title: Option<Seq<char>>,
        last_paste: Instant,
        session_start: Instant,
    ) -> AppState {
        AppState {
            events: Seq::empty(),
            input_mode: InputMode::Normal,
            input: Seq::empty(),
            paste: Seq::empty(),
            last_paste,
            scroll: 0,
            auto_scroll: true,
            session_start,
            mic_on: true,
            sys_on: true,
            should_quit: false,
            paused: false,
            meeting_title,
        }
    }

    /// The events are in order, the scroll position is within them, and at
    /// their end while the end is followed.
    pub open spec fn wf(self) -> bool {
        &&& in_order(self.events)
        &&& 0 <= self.scroll <= self.events.len()
        &&& self.auto_scroll ==> self.scroll == self.events.len()
    }

    /// The last scroll position that fills the view.
    pub open spec fn max_scroll(self, visible_height: int) -> int {
        if self.events.len() > visible_height {
            self.events.len() - visible_height
        } else {
            0
        }
    }

    /// The milliseconds from the start of the session to `now`.
    pub open spec fn elapsed_at(self, now: Instant) -> u64 {
        millis64(millis_between(now, self.session_start))
    }

    /// One more event.
    pub open spec fn with_event(self, event: Event) -> AppState {
        let events = self.events.insert(place_of(self.events, event.offset()), event);
        AppState {
            events,
            scroll: if self.auto_scroll {
                events.len() as int
            } else {
                self.scroll
            },
            ..self
        }
    }

    /// `lines` up, which stops following the end, unless that is not possible.
    pub open spec fn scrolled_up(self, lines: int) -> AppState {
        if self.scroll > 0 && lines > 0 {
            AppState {
                scroll: if self.scroll > lines {
                    self.scroll - lines
                } else {
                    0
                },
                auto_scroll: false,
                ..self
            }
        } else {
            self
        }
    }

    /// `lines` down, but not beyond the last position that fills the view.
    pub open spec fn scrolled_down(self, lines: int, visible_height: int) -> AppState {
        let most = self.max_scroll(visible_height);
        if self.scroll < most {
            AppState {
                scroll: if self.scroll + lines < most {
                    self.scroll + lines
                } else {
                    most
                },
                ..self
            }
        } else {
            self
        }
    }

    /// At the end, which is followed from now on.
    pub open spec fn at_bottom(self) -> AppState {
        AppState { scroll: self.events.len() as int, auto_scroll: true, ..self }
    }

    /// At the start, which is where the view stays.
    pub open spec fn at_top(self) -> AppState {
        AppState { scroll: 0, auto_scroll: false, ..self }
    }

    /// In this mode, with nothing typed yet.
    pub open spec fn in_mode(self, input_mode: InputMode) -> AppState {
        AppState { input_mode, input: Seq::empty(), ..self }
    }

    /// With nothing pasted.
    pub open spec fn unpasted(self) -> AppState {
        AppState { paste: Seq::empty(), ..self }
    }

    /// What may be a pasted path after one more character at `now`: the text
    /// starts over when the character before it came too long ago.
    pub open spec fn pasted(self, c: char, now: Instant) -> Seq<char> {
        if millis_between(now, self.last_paste) > PASTE_GAP_MS {
            seq![c]
        } else {
            self.paste.push(c)
        }
    }

    /// One more character that may belong to a pasted path, which is cleared
    /// once it names an image.
    pub open spec fn with_pasted(
        self,
        c: char,
        now: Instant,
        home: Option<Seq<char>>,
    ) -> AppState {
        let paste = self.pasted(c, now);
        AppState {
            paste: if image_path(paste, home) is Some {
                Seq::empty()
            } else {
                paste
            },
            last_paste: now,
            ..self
        }
    }
}

impl View for App {
    type V = AppState;

    open spec fn view(&self) -> AppState {
        AppState {
            events: self.events@,
            input_mode: self.input_mode,
            input: self.input_buffer@,
            paste: self.paste_buffer@,
            last_paste: self.last_paste_time,
            scroll: self.scroll as int,
            auto_scroll: self.auto_scroll,
            session_start: self.session_start,
            mic_on: self.mic_on,
            sys_on: self.sys_on,
            should_quit: self.should_quit,
            paused: self.paused,
            meeting_title: optional(self.meeting_title),
        }
    }
}


/// Tells whether the name ends like an image file.
fn has_image_name(name: &str) -> (b: bool)
    ensures
        b == is_image_name(name@),
{
    let lower = text::to_ascii_lower(name);
    text::ends_with(lower.as_str(), ".png") || text::ends_with(lower.as_str(), ".jpg")
        || text::ends_with(lower.as_str(), ".jpeg") || text::ends_with(lower.as_str(), ".gif")
        || text::ends_with(lower.as_str(), ".webp") || text::ends_with(lower.as_str(), ".heic")
        || text::ends_with(lower.as_str(), ".bmp")
}

impl Default for App {
    fn default() -> (app: Self)
        ensures
            exists|now: Instant| app@ == #[trigger] AppState::fresh(None, now, now),
            app@.wf(),
    {
        Self::new(None)
    }
}

impl App {
    /// The state at the start of a session, which starts at `now`.
    pub fn new_at(meeting_title: Option<String>, now: Instant) -> (app: Self)
        ensures
            app@ == AppState::fresh(optional(meeting_title), now, now),
            app@.wf(),
    {
        let app = App {
            events: Vec::new(),
            input_mode: InputMode::Normal,
            input_buffer: String::new(),
            paste_buffer: String::new(),
            last_paste_time: now,
            scroll: 0,
            auto_scroll: true,
            session_start: now,
            mic_on: true,
            sys_on: true,
            should_quit: false,
            paused: false,
            meeting_title,
        };
        assert(app@ =~= AppState::fresh(optional(meeting_title), now, now));
        app
    }

    /// The state at the start of a session, which starts now.
    pub fn new(meeting_title: Option<String>) -> (app: Self)
        ensures
            exists|now: Instant|
                app@ == #[trigger] AppState::fresh(optional(meeting_title), now, now),
            app@.wf(),
    {
        let now = Instant::now();
        Self::new_at(meeting_title, now)
    }

    /// Adds a character to the paste buffer at `now` and returns the image path
    /// that it completes, if it does.
    pub fn add_paste_char_at(&mut self, c: char, now: Instant, home: Option<&str>) -> (path: Option<
        String,
    >)
        ensures
            final(self)@ == old(self)@.with_pasted(c, now, optional_str(home)),
            match path {
                Some(p) => image_path(old(self)@.pasted(c, now), optional_str(home)) == Some(p@),
                None => image_path(old(self)@.pasted(c, now), optional_str(home)) is None,
            },
    {
        if millis_since(now, self.last_paste_time) > PASTE_GAP_MS as u128 {
            self.paste_buffer.clear();
        }
        self.last_paste_time = now;
        self.paste_buffer.push(c);
        assert(self.paste_buffer@ =~= old(self)@.pasted(c, now));
        self.check_image_path(home)
    }

    /// Adds a character to the paste buffer and returns the image path that it
    /// completes, if it does.
    pub fn add_paste_char(&mut self, c: char, home: Option<&str>) -> (path: Option<String>)
        ensures
            exists|now: Instant|
                {
                    &&& final(self)@ == #[trigger] old(self)@.with_pasted(
                        c,
                        now,
                        optional_str(home),
                    )
                    &&& match path {
                        Some(p) => image_path(old(self)@.pasted(c, now), optional_str(home))
                            == Some(p@),
                        None => image_path(
                            old(self)@.pasted(c, now),
                            optional_str(home),
                        ) is None,
                    }
                },
    {
        let now = Instant::now();
        self.add_paste_char_at(c, now, home)
    }

    /// The image path in the paste buffer, if it holds a complete one, which is
    /// then cleared.
    fn check_image_path(&mut self, home: Option<&str>) -> (path: Option<String>)
        ensures
            final(self)@ == (AppState {
                paste: if path is Some {
                    Seq::empty()
                } else {
                    old(self)@.paste
                },
                ..old(self)@
            }),
            match path {
                Some(p) => image_path(old(self)@.paste, optional_str(home)) == Some(p@),
                None => image_path(old(self)@.paste, optional_str(home)) is None,
            },
    {
        let name = text::trim(self.paste_buffer.as_str());
        if !text::starts_with(name.as_str(), "/") && !text::starts_with(name.as_str(), "~") {
            return None;
        }
        if !has_image_name(name.as_str()) {
            return None;
        }
        let path = if text::starts_with(name.as_str(), "~/") {
            proof {
                reveal_strlit("~/");
            }
            match home {
                Some(home) => {
                    let chars = text::chars_of(name.as_str());
                    let rest = text::string_of(&chars, 2, chars.len());
                    assert(rest@ =~= name@.skip(2));
                    join_path(home, rest.as_str())
                },
                None => name,
            }
        } else {
            name
        };
        self.paste_buffer.clear();
        Some(path)
    }

    /// Clears the paste buffer (call on command keys).
    pub fn clear_paste_buffer(&mut self)
        ensures
            final(self)@ == old(self)@.unpasted(),
    {
        self.paste_buffer.clear();
    }

    /// Adds an event and maintains the order by offset. Events with the same
    /// offset keep the order in which they were added.
    pub fn add_event(&mut self, event: Event)
        requires
            in_order(old(self)@.events),
        ensures
            final(self)@ == old(self)@.with_event(event),
            in_order(final(self)@.events),
            old(self)@.wf() ==> final(self)@.wf(),
    {
        let offset: u64 = event.offset_ms();
        let mut low: usize = 0;
        let mut high: usize = self.events.len();
        while low < high
            invariant
                low <= high <= self.events@.len(),
                in_order(self.events@),
                forall|i: int| 0 <= i < low ==> (#[trigger] self.events@[i]).offset() <= offset,
                forall|i: int|
                    high <= i < self.events@.len() ==> (#[trigger] self.events@[i]).offset()
                        > offset,
            decreases high - low,
        {
            let mid: usize = low + (high - low) / 2;
            if self.events[mid].offset_ms() <= offset {
                low = mid + 1;
            } else {
                high = mid;
            }
        }
        proof {
            lemma_place_of(self.events@, offset, low as int);
            lemma_insert_in_order(self.events@, event);
        }
        self.events.insert(low, event);
        if self.auto_scroll {
            self.scroll_to_bottom();
        }
    }

    /// Elapsed time from session start to `now` in milliseconds.
    pub fn elapsed_ms_at(&self, now: Instant) -> (ms: u64)
        ensures
            ms == self@.elapsed_at(now),
    {
        millis64_since(now, self.session_start)
    }

    /// Elapsed time since session start in milliseconds.
    pub fn elapsed_ms(&self) -> (ms: u64)
        ensures
            exists|now: Instant| ms == #[trigger] self@.elapsed_at(now),
    {
        let now = Instant::now();
        self.elapsed_ms_at(now)
    }

    /// Scrolls up by one line.
    pub fn scroll_up(&mut self)
        ensures
            final(self)@ == old(self)@.scrolled_up(1),
    {
        if self.scroll > 0 {
            self.scroll = self.scroll - 1;
            self.auto_scroll = false;
        }
    }

    /// Scrolls down by one line.
    pub fn scroll_down(&mut self, visible_height: usize)
        ensures
            final(self)@ == old(self)@.scrolled_down(1, visible_height as int),
    {
        let max_scroll: usize = self.events.len().saturating_sub(visible_height);
        if self.scroll < max_scroll {
            self.scroll = self.scroll + 1;
        }
    }

    /// Scrolls to the bottom and enables auto-scroll.
    pub fn scroll_to_bottom(&mut self)
        ensures
            final(self)@ == old(self)@.at_bottom(),
    {
        self.scroll = self.events.len();
        self.auto_scroll = true;
    }

    /// Enters marker input mode.
    pub fn enter_marker_mode(&mut self)
        ensures
            final(self)@ == old(self)@.in_mode(InputMode::Marker),
    {
        self.input_mode = InputMode::Marker;
        self.input_buffer.clear();
    }

    /// Enters note input mode.
    pub fn enter_note_mode(&mut self)
        ensures
            final(self)@ == old(self)@.in_mode(InputMode::Note),
    {
        self.input_mode = InputMode::Note;
        self.input_buffer.clear();
    }

    /// Exits input mode and returns to normal.
    pub fn exit_input_mode(&mut self)
        ensures
            final(self)@ == old(self)@.in_mode(InputMode::Normal),
    {
        self.input_mode = InputMode::Normal;
        self.input_buffer.clear();
    }

    /// Submits the current input and returns the text, unless it is empty.
    pub fn submit_input(&mut self) -> (submitted: Option<String>)
        ensures
            final(self)@ == old(self)@.in_mode(InputMode::Normal),
            match submitted {
                Some(text) => text@ == old(self)@.input && text@.len() > 0,
                None => old(self)@.input.len() == 0,
            },
    {
        if self.input_buffer.as_str().is_empty() {
            self.exit_input_mode();
            return None;
        }
        let mut text = String::new();
        std::mem::swap(&mut text, &mut self.input_buffer);
        self.input_mode = InputMode::Normal;
        Some(text)
    }
}

/// The place behind every event whose offset is not greater, and before every
/// event whose offset is, is the place of the event.
proof fn lemma_place_of(events: Seq<Event>, offset: u64, place: int)
    requires
        0 <= place <= events.len(),
        forall|i: int| 0 <= i < place ==> (#[trigger] events[i]).offset() <= offset,
        forall|i: int| place <= i < events.len() ==> (#[trigger] events[i]).offset() > offset,
    ensures
        place_of(events, offset) == place,
    decreases events.len(),
{
    if events.len() > place {
        lemma_place_of(events.drop_last(), offset, place);
    }
}

/// Where the place of an event is.
pub proof fn lemma_place_bounds(events: Seq<Event>, offset: u64)
    requires
        in_order(events),
    ensures
        0 <= place_of(events, offset) <= events.len(),
        forall|i: int|
            0 <= i < place_of(events, offset) ==> (#[trigger] events[i]).offset() <= offset,
        forall|i: int|
            place_of(events, offset) <= i < events.len() ==> (#[trigger] events[i]).offset()
                > offset,
    decreases events.len(),
{
    if events.len() > 0 {
        let last = events.len() - 1;
        let fewer = events.drop_last();
        if events[last].offset() > offset {
            lemma_place_bounds(fewer, offset);
            assert forall|i: int| 0 <= i < place_of(events, offset) implies (
            #[trigger] events[i]).offset() <= offset by {
                assert(fewer[i] == events[i]);
            }
            assert forall|i: int| place_of(events, offset) <= i < events.len() implies (
            #[trigger] events[i]).offset() > offset by {
                if i < last {
                    assert(fewer[i] == events[i]);
                }
            }
        }
    }
}

proof fn lemma_insert_in_order(events: Seq<Event>, event: Event)
    requires
        in_order(events),
    ensures
        in_order(events.insert(place_of(events, event.offset()), event)),
{
    lemma_place_bounds(events, event.offset());
}

/// Scrolling by some lines and then by more is scrolling by all of them.
pub proof fn law_scrolling_adds_up(state: AppState, some: int, more: int, visible_height: int)
    requires
        some >= 0,
        more >= 0,
        visible_height >= 0,
        state.scroll >= 0,
    ensures
        state.scrolled_down(some, visible_height).scrolled_down(more, visible_height)
            == state.scrolled_down(some + more, visible_height),
        state.scrolled_up(some).scrolled_up(more) == state.scrolled_up(some + more),
{
}

/// Adding an event to events in order keeps the order: the event stands behind
/// those whose offset is not greater, so events of one offset keep the order in
/// which they were added. No event is lost, none is made up, and without the new
/// one the events are what they were. The end stays in view if it is followed,
/// and nothing else changes.
pub proof fn law_events_keep_insertion_order(state: AppState, event: Event)
    requires
        in_order(state.events),
    ensures
        ({
            let after = state.with_event(event);
            let place = place_of(state.events, event.offset());
            &&& in_order(after.events)
            &&& after.events.to_multiset() == state.events.to_multiset().insert(event)
            &&& 0 <= place < after.events.len()
            &&& after.events[place] == event
            &&& after.events.remove(place) == state.events
            &&& forall|i: int|
                0 <= i < place ==> (#[trigger] state.events[i]).offset() <= event.offset()
            &&& forall|i: int|
                place <= i < state.events.len() ==> (#[trigger] state.events[i]).offset()
                    > event.offset()
            &&& state.auto_scroll ==> after.scroll == after.events.len()
            &&& !state.auto_scroll ==> after.scroll == state.scroll
            &&& after == (AppState { events: after.events, scroll: after.scroll, ..state })
        }),
        state.wf() ==> state.with_event(event).wf(),
{
    broadcast use vstd::seq_lib::group_to_multiset_ensures;

    lemma_place_bounds(state.events, event.offset());
    lemma_insert_in_order(state.events, event);
    let place = place_of(state.events, event.offset());
    assert(state.with_event(event).events.remove(place) =~= state.events);
}

/// A name is that of an image exactly when it ends with one of these extensions,
/// whatever stands before; capital letters count like small ones.
pub proof fn law_image_names(name: Seq<char>)
    ensures
        is_image_name(name) <==> exists|stem: Seq<char>, extension: Seq<char>|
            {
                &&& name.map_values(|c: char| text::ascii_lower(c)) == #[trigger] (stem + extension)
                &&& seq![
                    ".png"@,
                    ".jpg"@,
                    ".jpeg"@,
                    ".gif"@,
                    ".webp"@,
                    ".heic"@,
                    ".bmp"@,
                ].contains(extension)
            },
        is_image_name(name.map_values(|c: char| text::ascii_lower(c))) <==> is_image_name(name),
{
    let lower = name.map_values(|c: char| text::ascii_lower(c));
    let all = seq![".png"@, ".jpg"@, ".jpeg"@, ".gif"@, ".webp"@, ".heic"@, ".bmp"@];
    assert(all[0] == ".png"@ && all[1] == ".jpg"@ && all[2] == ".jpeg"@ && all[3] == ".gif"@);
    assert(all[4] == ".webp"@ && all[5] == ".heic"@ && all[6] == ".bmp"@);
    if is_image_name(name) {
        let i = choose|i: int| 0 <= i < all.len() && text::has_suffix(lower, #[trigger] all[i]);
        assert(lower =~= lower.take(lower.len() - all[i].len()) + all[i]);
        assert(all.contains(all[i]));
    }
    assert forall|stem: Seq<char>, extension: Seq<char>|
        lower == #[trigger] (stem + extension) && all.contains(extension) implies is_image_name(
        name,
    ) by {
        assert(lower.skip(stem.len() as int) =~= extension);
    }
    assert forall|c: char| #[trigger]
        text::ascii_lower(text::ascii_lower(c)) == text::ascii_lower(c) by {
        text::law_lower_case(c);
        text::law_lower_case(text::ascii_lower(c));
    }
    assert(lower.map_values(|c: char| text::ascii_lower(c)) =~= lower);
}

/// A pasted text names an image exactly when it is an absolute path, or one
/// below a home directory, to an image. The path is the text without the white
/// space at its ends, with the user's home put in where it is known.
pub proof fn law_pasted_paths(paste: Seq<char>, home: Seq<char>, somewhere: Option<Seq<char>>)
    ensures
        ({
            let name = text::trimmed(paste);
            &&& image_path(paste, somewhere) is Some <==> is_image_name(name) && name.len() > 0 && (
            name[0] == '/' || name[0] == '~')
            &&& is_image_name(name) && name.len() > 0 && name[0] == '/' ==> image_path(
                paste,
                somewhere,
            ) == Some(name)
            &&& is_image_name(name) && name.len() > 1 && name[0] == '~' && name[1] == '/'
                ==> image_path(paste, Some(home)) == Some(path_below(home, name.skip(2)))
                && image_path(paste, None) == Some(name)
            &&& is_image_name(name) && name.len() > 1 && name[0] == '~' && name[1] != '/'
                ==> image_path(paste, somewhere) == Some(name)
        }),
{
    let name = text::trimmed(paste);
    reveal_strlit("/");
    reveal_strlit("~");
    reveal_strlit("~/");
    if name.len() > 0 {
        assert(name.take(1)[0] == name[0]);
        if name[0] == '/' {
            assert(name.take(1) =~= "/"@);
        }
        if name[0] == '~' {
            assert(name.take(1) =~= "~"@);
        }
        if name.len() > 1 {
            assert(name.take(2)[0] == name[0] && name.take(2)[1] == name[1]);
            if name[0] == '~' && name[1] == '/' {
                assert(name.take(2) =~= "~/"@);
            }
        }
    }
}

/// A character belongs to what was pasted unless more than 500 milliseconds have
/// passed since the one before. What was pasted is forgotten once it names an
/// image, and nothing but it and its time changes.
pub proof fn law_pasting_goes_on(
    state: AppState,
    c: char,
    now: Instant,
    home: Option<Seq<char>>,
)
    ensures
        millis_between(now, state.last_paste) <= 500 ==> state.pasted(c, now) == state.paste.push(c),
        millis_between(now, state.last_paste) > 500 ==> state.pasted(c, now) == seq![c],
        image_path(state.pasted(c, now), home) is Some ==> state.with_pasted(c, now, home) == (
        AppState { paste: Seq::empty(), last_paste: now, ..state }),
        image_path(state.pasted(c, now), home) is None ==> state.with_pasted(c, now, home) == (
        AppState { paste: state.pasted(c, now), last_paste: now, ..state }),
        state.unpasted() == (AppState { paste: Seq::empty(), ..state }),
{
}

/// One line up or down moves the view by one line where there is one, and up
/// stops following the end. The view does not leave the events, and nothing but
/// it changes.
pub proof fn law_scrolling_by_one_line(state: AppState, visible_height: int)
    requires
        visible_height >= 0,
    ensures
        state.scroll > 0 ==> state.scrolled_up(1) == (AppState {
            scroll: state.scroll - 1,
            auto_scroll: false,
            ..state
        }),
        state.scroll <= 0 ==> state.scrolled_up(1) == state,
        state.scroll + visible_height < state.events.len() && state.scroll >= 0
            ==> state.scrolled_down(1, visible_height) == (AppState {
            scroll: state.scroll + 1,
            ..state
        }),
        state.scroll + visible_height >= state.events.len() && state.scroll >= 0
            ==> state.scrolled_down(1, visible_height) == state,
        state.at_bottom() == (AppState {
            scroll: state.events.len() as int,
            auto_scroll: true,
            ..state
        }),
        state.at_top() == (AppState { scroll: 0, auto_scroll: false, ..state }),
{
}

/// A mode begins with nothing typed, and changes nothing else. A session begins
/// with no events, in normal mode, with both sources on and the end followed.
pub proof fn law_how_things_begin(
    state: AppState,
    mode: InputMode,
    title: Option<Seq<char>>,
    now: Instant,
)
    ensures
        state.in_mode(mode) == (AppState { input_mode: mode, input: Seq::empty(), ..state }),
        ({
            let fresh = AppState::fresh(title, now, now);
            &&& fresh.events.len() == 0
            &&& fresh.input_mode == InputMode::Normal
            &&& fresh.input.len() == 0
            &&& fresh.paste.len() == 0
            &&& fresh.scroll == 0
            &&& fresh.auto_scroll && fresh.mic_on && fresh.sys_on
            &&& !fresh.should_quit && !fresh.paused
            &&& fresh.session_start == now
            &&& fresh.last_paste == now
            &&& fresh.meeting_title == title
        }),
        PASTE_GAP_MS == 500,
{
}

/// The time of a session is that since it started.
pub proof fn law_time_of_the_session(state: AppState, now: Instant)
    ensures
        millis_between(now, state.session_start) <= u64::MAX ==> state.elapsed_at(now)
            == millis_between(now, state.session_start),
{
}

/// What is known of the transcript is what it holds.
pub proof fn law_transcript_is_known(app: App)
    ensures
        app@.events == app.events@,
        app@.input_mode == app.input_mode,
        app@.input == app.input_buffer@,
        app@.paste == app.paste_buffer@,
        app@.last_paste == app.last_paste_time,
        app@.scroll == app.scroll,
        app@.auto_scroll == app.auto_scroll,
        app@.session_start == app.session_start,
        app@.mic_on == app.mic_on,
        app@.sys_on == app.sys_on,
        app@.should_quit == app.should_quit,
        app@.paused == app.paused,
        app.meeting_title matches Some(title) ==> app@.meeting_title == Some(title@),
        app.meeting_title is None ==> app@.meeting_title is None,
{
}

/// After an event was added, no event stands before one of a lower offset.
pub proof fn law_events_stand_by_offset(state: AppState, event: Event, i: int, j: int)
    requires
        forall|a: int, b: int|
            0 <= a <= b < state.events.len() ==> (#[trigger] state.events[a]).offset() <= (
            #[trigger] state.events[b]).offset(),
    ensures
        0 <= i <= j < state.with_event(event).events.len() ==> state.with_event(
            event,
        ).events[i].offset() <= state.with_event(event).events[j].offset(),
{
    law_events_keep_insertion_order(state, event);
}

} // verus!
