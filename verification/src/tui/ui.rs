//! What the screen shows: the rows of the transcript, the input area and the
//! status bar.

use std::time::Instant;
use vstd::prelude::*;

use crate::events::{AudioSource, Event};
use crate::text;
use crate::tui::app::{App, AppState, InputMode};

verus! {

/// The colours of the screen.
#[derive(Debug, Clone, Copy, PartialEq, Eq, Structural)]
pub enum Colour {
    /// The colour of the terminal.
    Plain,
    /// Dark gray.
    DarkGray,
    /// Cyan.
    Cyan,
    /// Green.
    Green,
    /// Yellow.
    Yellow,
    /// Magenta.
    Magenta,
    /// Blue.
    Blue,
}

/// How a row looks.
#[derive(Debug, Clone, Copy, PartialEq, Eq, Structural)]
pub struct RowStyle {
    /// The colour of its text.
    pub colour: Colour,
    /// Whether its text is bold.
    pub bold: bool,
}

/// A row of the transcript.
#[derive(Debug)]
pub struct Row {
    /// What it says.
    pub text: String,
    /// How it looks.
    pub style: RowStyle,
}

/// The input area.
#[derive(Debug)]
pub struct InputArea {
    /// The title on its border.
    pub title: &'static str,
    /// What stands in it.
    pub content: String,
    /// The colour of its text and border.
    pub colour: Colour,
}

/// How many rows fit between the borders of an area.
pub open spec fn rows_within(area_height: u16) -> int {
    if area_height >= 2 {
        area_height - 2
    } else {
        0
    }
}

/// The first and the last position that are shown.
pub open spec fn window(state: AppState, visible_height: int) -> (int, int) {
    let last_full = state.max_scroll(visible_height);
    let start = if state.auto_scroll || state.scroll > last_full {
        last_full
    } else {
        state.scroll
    };
    let end = if start + visible_height < state.events.len() {
        start + visible_height
    } else {
        state.events.len() as int
    };
    (start, end)
}

/// How the row of an event looks.
pub open spec fn style_of(event: Event) -> RowStyle {
    match event {
        Event::SessionStart { .. } => RowStyle { colour: Colour::DarkGray, bold: false },
        Event::SessionEnd { .. } => RowStyle { colour: Colour::DarkGray, bold: false },
        Event::Segment { src: AudioSource::Mic, .. } => RowStyle {
            colour: Colour::Cyan,
            bold: false,
        },
        Event::Segment { src: AudioSource::Sys, .. } => RowStyle {
            colour: Colour::Green,
            bold: false,
        },
        Event::Marker { .. } => RowStyle { colour: Colour::Yellow, bold: true },
        Event::Manual { .. } => RowStyle { colour: Colour::Magenta, bold: false },
        Event::Screenshot { .. } => RowStyle { colour: Colour::Blue, bold: true },
    }
}

/// The title of the transcript: the title of the meeting, if it has one, and
/// how many events there are.
pub open spec fn header_text(state: AppState) -> Seq<char> {
    let count = " Transcript ("@ + text::decimal(state.events.len()) + " events) "@;
    match state.meeting_title {
        Some(title) => " "@ + title + " |"@ + count,
        None => count,
    }
}

/// What stands in the input area.
pub open spec fn input_text(state: AppState) -> Seq<char> {
    match state.input_mode {
        InputMode::Normal =>
            " 's' screenshot | 'm' marker | 'n' note | '↑↓' scroll | 'q' quit "@,
        InputMode::Marker => "Label: "@ + state.input + "_"@,
        InputMode::Note => "Note: "@ + state.input + "_"@,
    }
}

/// The title of the input area.
pub open spec fn input_title(mode: InputMode) -> Seq<char> {
    match mode {
        InputMode::Normal => "Help"@,
        InputMode::Marker => "Marker (Enter to submit, Esc to cancel)"@,
        InputMode::Note => "Note (Enter to submit, Esc to cancel)"@,
    }
}

/// The colour of the input area.
pub open spec fn input_colour(mode: InputMode) -> Colour {
    match mode {
        InputMode::Normal => Colour::Plain,
        InputMode::Marker => Colour::Yellow,
        InputMode::Note => Colour::Magenta,
    }
}

/// What the status bar says `elapsed` milliseconds into the session.
pub open spec fn status_text(state: AppState, elapsed: u64) -> Seq<char> {
    let mic = if state.mic_on {
        "🎤 ON"@
    } else {
        "🎤 OFF"@
    };
    let sys = if state.sys_on {
        "🔊 ON"@
    } else {
        "🔊 OFF"@
    };
    let minutes = text::padded(elapsed as nat / 60000, 2);
    let seconds = text::padded((elapsed as nat % 60000) / 1000, 2);
    let events = text::decimal(state.events.len());
    " "@ + mic + " | "@ + sys + " | ⏱ "@ + minutes + ":"@ + seconds + " | Events: "@ + events
        + " "@
}

/// Where the view stands: at the followed end, or at a position among the
/// events.
pub open spec fn indicator_text(state: AppState) -> Seq<char> {
    if state.auto_scroll {
        "[AUTO]"@
    } else {
        let total = if state.events.len() > 0 {
            state.events.len()
        } else {
            1
        };
        "["@ + text::decimal((state.scroll + 1) as nat) + "/"@ + text::decimal(total) + "]"@
    }
}

/// How the row of an event looks.
pub fn row_style(event: &Event) -> (style: RowStyle)
    ensures
        style == style_of(*event),
{
    match event {
        Event::SessionStart { .. } | Event::SessionEnd { .. } => {
            RowStyle { colour: Colour::DarkGray, bold: false }
        },
        Event::Segment { src, .. } => {
            match src {
                AudioSource::Mic => RowStyle { colour: Colour::Cyan, bold: false },
                AudioSource::Sys => RowStyle { colour: Colour::Green, bold: false },
            }
        },
        Event::Marker { .. } => RowStyle { colour: Colour::Yellow, bold: true },
        Event::Manual { .. } => RowStyle { colour: Colour::Magenta, bold: false },
        Event::Screenshot { .. } => RowStyle { colour: Colour::Blue, bold: true },
    }
}

/// The rows of the transcript in an area of this height, borders included.
pub fn transcript_rows(app: &App, area_height: u16) -> (rows: Vec<Row>)
    ensures
        ({
            let (start, end) = window(app@, rows_within(area_height));
            &&& rows@.len() == end - start
            &&& forall|i: int|
                0 <= i < rows@.len() ==> (#[trigger] rows@[i]).text@ == app@.events[start
                    + i].shown() && rows@[i].style == style_of(app@.events[start + i])
        }),
{
    let visible_height: usize = area_height.saturating_sub(2) as usize;
    let total: usize = app.events.len();
    let last_full: usize = total.saturating_sub(visible_height);
    let start: usize = if app.auto_scroll || app.scroll > last_full {
        last_full
    } else {
        app.scroll
    };
    let end: usize = if visible_height < total - start {
        start + visible_height
    } else {
        total
    };
    let mut rows: Vec<Row> = Vec::new();
    for i in start..end
        invariant
            start <= end <= app.events@.len(),
            rows@.len() == i - start,
            forall|j: int|
                0 <= j < rows@.len() ==> (#[trigger] rows@[j]).text@ == app@.events[start
                    + j].shown() && rows@[j].style == style_of(app@.events[start + j]),
    {
        let event = &app.events[i];
        rows.push(Row { text: event.display_line(), style: row_style(event) });
    }
    rows
}

/// The title of the transcript.
pub fn transcript_title(app: &App) -> (title: String)
    ensures
        title@ == header_text(app@),
{
    let mut title = String::new();
    if let Some(meeting) = &app.meeting_title {
        title.append(" ");
        title.append(meeting.as_str());
        title.append(" |");
    }
    title.append(" Transcript (");
    text::push_decimal(&mut title, app.events.len() as u64);
    title.append(" events) ");
    assert(title@ =~= header_text(app@));
    title
}

/// The input area.
pub fn input_area(app: &App) -> (area: InputArea)
    ensures
        area.title@ == input_title(app@.input_mode),
        area.content@ == input_text(app@),
        area.colour == input_colour(app@.input_mode),
{
    match app.input_mode {
        InputMode::Normal => InputArea {
            title: "Help",
            content: " 's' screenshot | 'm' marker | 'n' note | '↑↓' scroll | 'q' quit ".to_owned(),
            colour: Colour::Plain,
        },
        InputMode::Marker => {
            let mut content = "Label: ".to_owned();
            content.append(app.input_buffer.as_str());
            content.append("_");
            InputArea {
                title: "Marker (Enter to submit, Esc to cancel)",
                content,
                colour: Colour::Yellow,
            }
        },
        InputMode::Note => {
            let mut content = "Note: ".to_owned();
            content.append(app.input_buffer.as_str());
            content.append("_");
            InputArea {
                title: "Note (Enter to submit, Esc to cancel)",
                content,
                colour: Colour::Magenta,
            }
        },
    }
}

/// What the status bar says at `now`.
pub fn status_line(app: &App, now: Instant) -> (status: String)
    ensures
        status@ == status_text(app@, app@.elapsed_at(now)),
{
    let elapsed: u64 = app.elapsed_ms_at(now);
    let mut status = " ".to_owned();
    status.append(
        if app.mic_on {
            "🎤 ON"
        } else {
            "🎤 OFF"
        },
    );
    status.append(" | ");
    status.append(
        if app.sys_on {
            "🔊 ON"
        } else {
            "🔊 OFF"
        },
    );
    status.append(" | ⏱ ");
    text::push_padded(&mut status, elapsed / 60000, 2);
    status.append(":");
    text::push_padded(&mut status, (elapsed % 60000) / 1000, 2);
    status.append(" | Events: ");
    text::push_decimal(&mut status, app.events.len() as u64);
    status.append(" ");
    status
}

/// Where the view stands.
pub fn scroll_indicator(app: &App) -> (indicator: String)
    requires
        app.auto_scroll || app.scroll < usize::MAX,
    ensures
        indicator@ == indicator_text(app@),
{
    if app.auto_scroll {
        return "[AUTO]".to_owned();
    }
    let total: usize = if app.events.len() > 0 {
        app.events.len()
    } else {
        1
    };
    let mut indicator = "[".to_owned();
    text::push_decimal(&mut indicator, (app.scroll + 1) as u64);
    indicator.append("/");
    text::push_decimal(&mut indicator, total as u64);
    indicator.append("]");
    indicator
}

/// The view lies within the events and fills the area as far as there are
/// events; while the end is followed, the last event is in view.
pub proof fn law_window_fits(state: AppState, visible_height: int)
    requires
        state.wf(),
        visible_height >= 0,
    ensures
        ({
            let (start, end) = window(state, visible_height);
            &&& 0 <= start <= end <= state.events.len()
            &&& end - start == (if state.events.len() < visible_height {
                state.events.len() as int
            } else {
                visible_height
            })
            &&& state.auto_scroll ==> end == state.events.len()
        }),
{
}

/// Where the end is not followed, the view begins at the scroll position, as
/// long as that fills it; two rows of an area are its borders.
pub proof fn law_view_begins_where_it_was_scrolled(
    state: AppState,
    visible_height: int,
    area_height: u16,
)
    requires
        visible_height >= 0,
    ensures
        !state.auto_scroll && 0 <= state.scroll && state.scroll + visible_height
            <= state.events.len() ==> window(state, visible_height) == (
            state.scroll,
            state.scroll + visible_height,
        ),
        area_height >= 2 ==> rows_within(area_height) == area_height - 2,
        area_height < 2 ==> rows_within(area_height) == 0,
{
}

/// What came from the microphone and from the system audio, a marker, a note and
/// an image look different; markers and images alone are bold.
pub proof fn law_rows_are_told_apart(event: Event)
    ensures
        match event {
            Event::Segment { src, .. } => {
                &&& src == AudioSource::Mic <==> style_of(event).colour == Colour::Cyan
                &&& src == AudioSource::Sys <==> style_of(event).colour == Colour::Green
            },
            Event::Marker { .. } => style_of(event).colour == Colour::Yellow,
            Event::Manual { .. } => style_of(event).colour == Colour::Magenta,
            Event::Screenshot { .. } => style_of(event).colour == Colour::Blue,
            Event::SessionStart { .. } => style_of(event).colour == Colour::DarkGray,
            Event::SessionEnd { .. } => style_of(event).colour == Colour::DarkGray,
        },
        style_of(event).bold <==> event is Marker || event is Screenshot,
{
}

/// The header shows how many events there are, behind the title of the meeting
/// if it has one; the input area shows all that was typed.
pub proof fn law_screen_shows_it_all(state: AppState, title: Seq<char>)
    ensures
        state.meeting_title is None ==> header_text(state) == " Transcript ("@ + text::decimal(
            state.events.len(),
        ) + " events) "@,
        state.meeting_title == Some(title) ==> header_text(state) == " "@ + title
            + " | Transcript ("@ + text::decimal(state.events.len()) + " events) "@,
        state.input_mode == InputMode::Marker ==> input_text(state) == "Label: "@ + state.input.push(
            '_',
        ),
        state.input_mode == InputMode::Note ==> input_text(state) == "Note: "@ + state.input.push(
            '_',
        ),
        input_colour(InputMode::Normal) == Colour::Plain,
        input_colour(InputMode::Marker) == Colour::Yellow,
        input_colour(InputMode::Note) == Colour::Magenta,
        input_title(InputMode::Normal) == "Help"@,
        text::has_prefix(input_title(InputMode::Marker), "Marker"@),
        text::has_prefix(input_title(InputMode::Note), "Note"@),
{
    reveal_strlit("_");
    reveal_strlit(" |");
    reveal_strlit(" Transcript (");
    reveal_strlit(" | Transcript (");
    reveal_strlit("Marker");
    reveal_strlit("Note");
    reveal_strlit("Marker (Enter to submit, Esc to cancel)");
    reveal_strlit("Note (Enter to submit, Esc to cancel)");
    assert(input_title(InputMode::Marker).take(6) =~= "Marker"@);
    assert(input_title(InputMode::Note).take(4) =~= "Note"@);
    if state.meeting_title == Some(title) {
        assert(header_text(state) =~= " "@ + title + " | Transcript ("@ + text::decimal(
            state.events.len(),
        ) + " events) "@);
    }
    if state.input_mode == InputMode::Marker {
        assert(input_text(state) =~= "Label: "@ + state.input.push('_'));
    }
    if state.input_mode == InputMode::Note {
        assert(input_text(state) =~= "Note: "@ + state.input.push('_'));
    }
}

/// The status bar shows which sources are on, all whole minutes and the seconds
/// of the session, and how many events there are; beside it stands the position
/// of the view, counted from one, or that the end is followed.
pub proof fn law_status_shows_the_session(
    state: AppState,
    minutes: nat,
    seconds: nat,
    rest: nat,
)
    requires
        seconds < 60,
        rest < 1000,
        60_000 * minutes + 1000 * seconds + rest <= u64::MAX,
    ensures
        ({
            let elapsed = (60_000 * minutes + 1000 * seconds + rest) as u64;
            let time = text::padded(minutes, 2) + ":"@ + text::padded(seconds, 2);
            status_text(state, elapsed) == (if state.mic_on {
                " 🎤 ON"@
            } else {
                " 🎤 OFF"@
            }) + (if state.sys_on {
                " | 🔊 ON"@
            } else {
                " | 🔊 OFF"@
            }) + " | ⏱ "@ + time + " | Events: "@ + text::decimal(state.events.len()) + " "@
        }),
        state.auto_scroll ==> indicator_text(state) == "[AUTO]"@,
        !state.auto_scroll && state.events.len() > 0 && state.scroll >= 0 ==> indicator_text(state)
            == "["@ + text::decimal((state.scroll + 1) as nat) + "/"@ + text::decimal(
            state.events.len(),
        ) + "]"@,
        !state.auto_scroll && state.events.len() == 0 && state.scroll >= 0 ==> indicator_text(state)
            == "["@ + text::decimal((state.scroll + 1) as nat) + "/"@ + text::decimal(1) + "]"@,
{
    let ms = 60_000 * minutes + 1000 * seconds + rest;
    assert(ms / 60_000 == minutes);
    assert(ms % 60_000 == 1000 * seconds + rest);
    assert((1000 * seconds + rest) / 1000 == seconds);
    reveal_strlit(" ");
    reveal_strlit(" | ");
    reveal_strlit("🎤 ON");
    reveal_strlit("🎤 OFF");
    reveal_strlit("🔊 ON");
    reveal_strlit("🔊 OFF");
    reveal_strlit(" 🎤 ON");
    reveal_strlit(" 🎤 OFF");
    reveal_strlit(" | 🔊 ON");
    reveal_strlit(" | 🔊 OFF");
    assert(" "@ + "🎤 ON"@ =~= " 🎤 ON"@);
    assert(" "@ + "🎤 OFF"@ =~= " 🎤 OFF"@);
    assert(" | "@ + "🔊 ON"@ =~= " | 🔊 ON"@);
    assert(" | "@ + "🔊 OFF"@ =~= " | 🔊 OFF"@);
    let time = text::padded(minutes, 2) + ":"@ + text::padded(seconds, 2);
    let mic = if state.mic_on {
        " 🎤 ON"@
    } else {
        " 🎤 OFF"@
    };
    let sys = if state.sys_on {
        " | 🔊 ON"@
    } else {
        " | 🔊 OFF"@
    };
    assert(status_text(state, ms as u64) =~= mic + sys + " | ⏱ "@ + time + " | Events: "@
        + text::decimal(state.events.len()) + " "@);
}

} // verus!
