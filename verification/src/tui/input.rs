//! What the keys do.

use std::time::Instant;
use vstd::prelude::*;

use crate::text::optional_str;
use crate::tui::app::{image_path, App, AppState, InputMode};

verus! {

/// The keys that the transcript tells apart.
#[derive(Debug, Clone, Copy, PartialEq, Eq, Structural)]
pub enum KeyCode {
    /// A character.
    Char(char),
    /// Down arrow.
    Down,
    /// Up arrow.
    Up,
    /// Page down.
    PageDown,
    /// Page up.
    PageUp,
    /// Escape.
    Esc,
    /// Enter.
    Enter,
    /// Backspace.
    Backspace,
    /// Any other key.
    Other,
}

/// A key press.
#[derive(Debug, Clone, Copy, PartialEq, Eq, Structural)]
pub struct Key {
    /// The key.
    pub code: KeyCode,
    /// Whether the control key was held.
    pub control: bool,
}

/// Result of handling a key press.
#[derive(Debug)]
pub enum KeyAction {
    /// No action needed.
    Nothing,
    /// Submit a marker with the given label.
    SubmitMarker(String),
    /// Submit a note with the given text.
    SubmitNote(String),
    /// Capture a screenshot (interactive region).
    CaptureScreenshot,
    /// Capture a screenshot (window select).
    CaptureWindowScreenshot,
    /// Import an image from a detected file path (drag-and-drop).
    ImportImage(String),
    /// Hand the pause state on to the audio thread.
    TogglePause,
    /// Request to quit.
    Quit,
}

/// What an action asks for.
pub enum Action {
    /// Nothing.
    Nothing,
    /// A marker with this label.
    SubmitMarker(Seq<char>),
    /// A note with this text.
    SubmitNote(Seq<char>),
    /// A screenshot of a region.
    CaptureScreenshot,
    /// A screenshot of a window.
    CaptureWindowScreenshot,
    /// The image at this path.
    ImportImage(Seq<char>),
    /// The pause state for the audio thread.
    TogglePause,
    /// The end.
    Quit,
}

impl View for KeyAction {
    type V = Action;

    open spec fn view(&self) -> Action {
        match *self {
            KeyAction::Nothing => Action::Nothing,
            KeyAction::SubmitMarker(label) => Action::SubmitMarker(label@),
            KeyAction::SubmitNote(text) => Action::SubmitNote(text@),
            KeyAction::CaptureScreenshot => Action::CaptureScreenshot,
            KeyAction::CaptureWindowScreenshot => Action::CaptureWindowScreenshot,
            KeyAction::ImportImage(path) => Action::ImportImage(path@),
            KeyAction::TogglePause => Action::TogglePause,
            KeyAction::Quit => Action::Quit,
        }
    }
}

/// What a key does in normal mode. Every key but those characters that are no
/// command ends what may be a pasted path.
pub open spec fn normal_key(
    state: AppState,
    code: KeyCode,
    visible_height: int,
    now: Instant,
    home: Option<Seq<char>>,
) -> (AppState, Action) {
    let clear = state.unpasted();
    match code {
        KeyCode::Char('q') => (AppState { should_quit: true, ..clear }, Action::Quit),
        KeyCode::Char('m') => (clear.in_mode(InputMode::Marker), Action::Nothing),
        KeyCode::Char('n') => (clear.in_mode(InputMode::Note), Action::Nothing),
        KeyCode::Char('s') => (clear, Action::CaptureScreenshot),
        KeyCode::Char('S') => (clear, Action::CaptureWindowScreenshot),
        KeyCode::Char('j') => (clear.scrolled_down(1, visible_height), Action::Nothing),
        KeyCode::Down => (clear.scrolled_down(1, visible_height), Action::Nothing),
        KeyCode::Char('k') => (clear.scrolled_up(1), Action::Nothing),
        KeyCode::Up => (clear.scrolled_up(1), Action::Nothing),
        KeyCode::PageDown => (clear.scrolled_down(visible_height, visible_height), Action::Nothing),
        KeyCode::PageUp => (clear.scrolled_up(visible_height), Action::Nothing),
        KeyCode::Char('G') => (clear.at_bottom(), Action::Nothing),
        KeyCode::Char('g') => (clear.at_top(), Action::Nothing),
        KeyCode::Char(c) => (
            state.with_pasted(c, now, home),
            match image_path(state.pasted(c, now), home) {
                Some(path) => Action::ImportImage(path),
                None => Action::Nothing,
            },
        ),
        _ => (clear, Action::Nothing),
    }
}

/// What a key does while a marker or a note is typed.
pub open spec fn typing_key(state: AppState, code: KeyCode, is_marker: bool) -> (AppState, Action) {
    match code {
        KeyCode::Esc => (state.in_mode(InputMode::Normal), Action::Nothing),
        KeyCode::Enter => (
            state.in_mode(InputMode::Normal),
            if state.input.len() == 0 {
                Action::Nothing
            } else if is_marker {
                Action::SubmitMarker(state.input)
            } else {
                Action::SubmitNote(state.input)
            },
        ),
        KeyCode::Backspace => (
            AppState {
                input: if state.input.len() > 0 {
                    state.input.drop_last()
                } else {
                    state.input
                },
                ..state
            },
            Action::Nothing,
        ),
        KeyCode::Char(c) => (AppState { input: state.input.push(c), ..state }, Action::Nothing),
        _ => (state, Action::Nothing),
    }
}

/// What a key does: Ctrl+C always quits; otherwise the mode decides.
pub open spec fn key_pressed(
    state: AppState,
    key: Key,
    visible_height: int,
    now: Instant,
    home: Option<Seq<char>>,
) -> (AppState, Action) {
    if key.control && key.code == KeyCode::Char('c') {
        (AppState { should_quit: true, ..state }, Action::Quit)
    } else {
        match state.input_mode {
            InputMode::Normal => normal_key(state, key.code, visible_height, now, home),
            InputMode::Marker => typing_key(state, key.code, true),
            InputMode::Note => typing_key(state, key.code, false),
        }
    }
}

/// Handles a key press at `now`, returning an action if needed.
pub fn handle_key_at(
    app: &mut App,
    key: Key,
    visible_height: usize,
    now: Instant,
    home: Option<&str>,
) -> (action: KeyAction)
    ensures
        (final(app)@, action@) == key_pressed(
            old(app)@,
            key,
            visible_height as int,
            now,
            optional_str(home),
        ),
{
    if key.control && key.code == KeyCode::Char('c') {
        app.should_quit = true;
        return KeyAction::Quit;
    }
    match app.input_mode {
        InputMode::Normal => handle_normal_mode(app, key.code, visible_height, now, home),
        InputMode::Marker => handle_input_mode(app, key.code, true),
        InputMode::Note => handle_input_mode(app, key.code, false),
    }
}

/// Handles a key press, returning an action if needed.
pub fn handle_key(app: &mut App, key: Key, visible_height: usize, home: Option<&str>) -> (action:
    KeyAction)
    ensures
        exists|now: Instant|
            (final(app)@, action@) == #[trigger] key_pressed(
                old(app)@,
                key,
                visible_height as int,
                now,
                optional_str(home),
            ),
{
    let now = Instant::now();
    handle_key_at(app, key, visible_height, now, home)
}

fn handle_normal_mode(
    app: &mut App,
    code: KeyCode,
    visible_height: usize,
    now: Instant,
    home: Option<&str>,
) -> (action: KeyAction)
    ensures
        (final(app)@, action@) == normal_key(
            old(app)@,
            code,
            visible_height as int,
            now,
            optional_str(home),
        ),
{
    match code {
        KeyCode::Char('q') => {
            app.clear_paste_buffer();
            app.should_quit = true;
            KeyAction::Quit
        },
        KeyCode::Char('m') => {
            app.clear_paste_buffer();
            app.enter_marker_mode();
            KeyAction::Nothing
        },
        KeyCode::Char('n') => {
            app.clear_paste_buffer();
            app.enter_note_mode();
            KeyAction::Nothing
        },
        KeyCode::Char('s') => {
            app.clear_paste_buffer();
            KeyAction::CaptureScreenshot
        },
        KeyCode::Char('S') => {
            app.clear_paste_buffer();
            KeyAction::CaptureWindowScreenshot
        },
        KeyCode::Char('j') | KeyCode::Down => {
            app.clear_paste_buffer();
            app.scroll_down(visible_height);
            KeyAction::Nothing
        },
        KeyCode::Char('k') | KeyCode::Up => {
            app.clear_paste_buffer();
            app.scroll_up();
            KeyAction::Nothing
        },
        KeyCode::PageDown => {
            app.clear_paste_buffer();
            let ghost start = app@;
            for i in 0..visible_height
                invariant
                    app@ == start.scrolled_down(i as int, visible_height as int),
            {
                app.scroll_down(visible_height);
            }
            KeyAction::Nothing
        },
        KeyCode::PageUp => {
            app.clear_paste_buffer();
            let ghost start = app@;
            for i in 0..visible_height
                invariant
                    app@ == start.scrolled_up(i as int),
            {
                app.scroll_up();
            }
            KeyAction::Nothing
        },
        KeyCode::Char('G') => {
            app.clear_paste_buffer();
            app.scroll_to_bottom();
            KeyAction::Nothing
        },
        KeyCode::Char('g') => {
            app.clear_paste_buffer();
            app.scroll = 0;
            app.auto_scroll = false;
            KeyAction::Nothing
        },
        // Any other character may belong to a path that was dragged in.
        KeyCode::Char(c) => {
            match app.add_paste_char_at(c, now, home) {
                Some(path) => KeyAction::ImportImage(path),
                None => KeyAction::Nothing,
            }
        },
        _ => {
            app.clear_paste_buffer();
            KeyAction::Nothing
        },
    }
}

fn handle_input_mode(app: &mut App, code: KeyCode, is_marker: bool) -> (action: KeyAction)
    ensures
        (final(app)@, action@) == typing_key(old(app)@, code, is_marker),
{
    match code {
        KeyCode::Esc => {
            app.exit_input_mode();
            KeyAction::Nothing
        },
        KeyCode::Enter => {
            match app.submit_input() {
                Some(text) => {
                    if is_marker {
                        KeyAction::SubmitMarker(text)
                    } else {
                        KeyAction::SubmitNote(text)
                    }
                },
                None => KeyAction::Nothing,
            }
        },
        KeyCode::Backspace => {
            app.input_buffer.pop();
            KeyAction::Nothing
        },
        KeyCode::Char(c) => {
            app.input_buffer.push(c);
            KeyAction::Nothing
        },
        _ => KeyAction::Nothing,
    }
}

/// No key breaks the order of the events or the bounds of the scroll position,
/// and none changes the events, the start of the session, the title or what is
/// switched on.
pub proof fn law_keys_keep_the_transcript(
    state: AppState,
    key: Key,
    visible_height: int,
    now: Instant,
    home: Option<Seq<char>>,
)
    requires
        state.wf(),
        visible_height >= 0,
    ensures
        ({
            let after = key_pressed(state, key, visible_height, now, home).0;
            &&& after.wf()
            &&& after.events == state.events
            &&& after.session_start == state.session_start
            &&& after.meeting_title == state.meeting_title
            &&& after.mic_on == state.mic_on
            &&& after.sys_on == state.sys_on
            &&& after.paused == state.paused
        }),
{
}

/// The action is to quit exactly when the key made the transcript quit.
pub proof fn law_quit_is_recorded(
    state: AppState,
    key: Key,
    visible_height: int,
    now: Instant,
    home: Option<Seq<char>>,
)
    requires
        !state.should_quit,
    ensures
        ({
            let (after, action) = key_pressed(state, key, visible_height, now, home);
            action is Quit <==> after.should_quit
        }),
{
}

/// A command key works while text is typed as text: in a marker or a note every
/// character is taken, and Enter hands out what was typed since.
pub proof fn law_typed_text_is_submitted(
    state: AppState,
    typed: Seq<char>,
    visible_height: int,
    now: Instant,
    home: Option<Seq<char>>,
)
    requires
        state.input_mode != InputMode::Normal,
    ensures
        ({
            let after = type_all(state, typed, visible_height, now, home);
            let enter = Key { code: KeyCode::Enter, control: false };
            let (done, action) = key_pressed(after, enter, visible_height, now, home);
            &&& after.input_mode == state.input_mode
            &&& after.input == state.input + typed
            &&& done.input_mode == InputMode::Normal
            &&& action == (if (state.input + typed).len() == 0 {
                Action::Nothing
            } else if state.input_mode == InputMode::Marker {
                Action::SubmitMarker(state.input + typed)
            } else {
                Action::SubmitNote(state.input + typed)
            })
        }),
    decreases typed.len(),
{
    if typed.len() == 0 {
        assert(state.input + typed =~= state.input);
    } else {
        law_typed_text_is_submitted(state, typed.drop_last(), visible_height, now, home);
        assert((state.input + typed.drop_last()).push(typed.last()) =~= state.input + typed);
    }
}

/// The transcript after these characters were pressed one after the other.
pub open spec fn type_all(
    state: AppState,
    typed: Seq<char>,
    visible_height: int,
    now: Instant,
    home: Option<Seq<char>>,
) -> AppState
    decreases typed.len(),
{
    if typed.len() == 0 {
        state
    } else {
        let key = Key { code: KeyCode::Char(typed.last()), control: false };
        key_pressed(
            type_all(state, typed.drop_last(), visible_height, now, home),
            key,
            visible_height,
            now,
            home,
        ).0
    }
}

/// What the keys do where nothing is typed. Every key that is a command, and
/// every key that is no character, also forgets what was pasted; what they do not
/// name stays as it is.
pub proof fn law_keys_are_commands(
    state: AppState,
    control: bool,
    visible_height: int,
    now: Instant,
    home: Option<Seq<char>>,
)
    requires
        state.input_mode == InputMode::Normal,
    ensures
        ({
            let press = |code: KeyCode|
                key_pressed(state, Key { code, control }, visible_height, now, home);
            let clear = AppState { paste: Seq::empty(), ..state };
            &&& press(KeyCode::Char('q')) == (AppState { should_quit: true, ..clear }, Action::Quit)
            &&& press(KeyCode::Char('m')) == (
                AppState { input_mode: InputMode::Marker, input: Seq::empty(), ..clear },
                Action::Nothing,
            )
            &&& press(KeyCode::Char('n')) == (
                AppState { input_mode: InputMode::Note, input: Seq::empty(), ..clear },
                Action::Nothing,
            )
            &&& press(KeyCode::Char('s')) == (clear, Action::CaptureScreenshot)
            &&& press(KeyCode::Char('S')) == (clear, Action::CaptureWindowScreenshot)
            &&& press(KeyCode::Char('G')) == (
                AppState { scroll: state.events.len() as int, auto_scroll: true, ..clear },
                Action::Nothing,
            )
            &&& press(KeyCode::Char('g')) == (
                AppState { scroll: 0, auto_scroll: false, ..clear },
                Action::Nothing,
            )
            &&& press(KeyCode::Char('j')) == press(KeyCode::Down)
            &&& press(KeyCode::Char('k')) == press(KeyCode::Up)
            &&& press(KeyCode::Down) == (clear.scrolled_down(1, visible_height), Action::Nothing)
            &&& press(KeyCode::Up) == (clear.scrolled_up(1), Action::Nothing)
            &&& press(KeyCode::PageDown) == (
                clear.scrolled_down(visible_height, visible_height),
                Action::Nothing,
            )
            &&& press(KeyCode::PageUp) == (clear.scrolled_up(visible_height), Action::Nothing)
            &&& press(KeyCode::Esc) == (clear, Action::Nothing)
            &&& press(KeyCode::Enter) == (clear, Action::Nothing)
            &&& press(KeyCode::Backspace) == (clear, Action::Nothing)
            &&& press(KeyCode::Other) == (clear, Action::Nothing)
        }),
{
}

/// A character that is no command is taken for part of a pasted path, and brings
/// in the image that it completes.
pub proof fn law_other_characters_are_pasted(
    state: AppState,
    c: char,
    control: bool,
    visible_height: int,
    now: Instant,
    home: Option<Seq<char>>,
)
    requires
        state.input_mode == InputMode::Normal,
        !(control && c == 'c'),
        !seq!['q', 'm', 'n', 's', 'S', 'G', 'g', 'j', 'k'].contains(c),
    ensures
        ({
            let (after, action) = key_pressed(
                state,
                Key { code: KeyCode::Char(c), control },
                visible_height,
                now,
                home,
            );
            &&& after == state.with_pasted(c, now, home)
            &&& match image_path(state.pasted(c, now), home) {
                Some(path) => action == Action::ImportImage(path),
                None => action == Action::Nothing,
            }
        }),
{
    let commands = seq!['q', 'm', 'n', 's', 'S', 'G', 'g', 'j', 'k'];
    assert(commands[0] == 'q' && commands[1] == 'm' && commands[2] == 'n');
    assert(commands[3] == 's' && commands[4] == 'S' && commands[5] == 'G');
    assert(commands[6] == 'g' && commands[7] == 'j' && commands[8] == 'k');
}

/// Control and C quit whatever is going on. While a marker or a note is typed,
/// Escape throws it away, Backspace takes its last character back, and no key
/// but these, Enter and characters does anything.
pub proof fn law_keys_while_typing(
    state: AppState,
    control: bool,
    code: KeyCode,
    visible_height: int,
    now: Instant,
    home: Option<Seq<char>>,
)
    ensures
        ({
            let press = |k: KeyCode|
                key_pressed(state, Key { code: k, control }, visible_height, now, home);
            &&& control ==> press(KeyCode::Char('c')) == (
                AppState { should_quit: true, ..state },
                Action::Quit,
            )
            &&& state.input_mode != InputMode::Normal ==> {
                &&& press(KeyCode::Esc) == (
                    AppState { input_mode: InputMode::Normal, input: Seq::empty(), ..state },
                    Action::Nothing,
                )
                &&& state.input.len() > 0 ==> press(KeyCode::Backspace) == (
                    AppState { input: state.input.drop_last(), ..state },
                    Action::Nothing,
                )
                &&& state.input.len() == 0 ==> press(KeyCode::Backspace) == (
                    state,
                    Action::Nothing,
                )
                &&& code matches KeyCode::Char(c) ==> (!(control && c == 'c') ==> press(code) == (
                    AppState { input: state.input.push(c), ..state },
                    Action::Nothing,
                ))
                &&& press(KeyCode::Enter).0 == (AppState {
                    input_mode: InputMode::Normal,
                    input: Seq::empty(),
                    ..state
                })
                &&& code is Down || code is Up || code is PageDown || code is PageUp
                    || code is Other ==> press(code) == (state, Action::Nothing)
            }
        }),
{
}

/// No key moves the view out of the events.
pub proof fn law_keys_stay_within_the_events(
    state: AppState,
    key: Key,
    visible_height: int,
    now: Instant,
    home: Option<Seq<char>>,
)
    requires
        0 <= state.scroll <= state.events.len(),
        visible_height >= 0,
    ensures
        ({
            let after = key_pressed(state, key, visible_height, now, home).0;
            0 <= after.scroll <= state.events.len() && after.events == state.events
        }),
{
}

/// What is known of an action is what it asks for.
pub proof fn law_actions_are_known(text: String)
    ensures
        KeyAction::SubmitMarker(text)@ == Action::SubmitMarker(text@),
        KeyAction::SubmitNote(text)@ == Action::SubmitNote(text@),
        KeyAction::ImportImage(text)@ == Action::ImportImage(text@),
        KeyAction::Nothing@ == Action::Nothing,
        KeyAction::CaptureScreenshot@ == Action::CaptureScreenshot,
        KeyAction::CaptureWindowScreenshot@ == Action::CaptureWindowScreenshot,
        KeyAction::TogglePause@ == Action::TogglePause,
        KeyAction::Quit@ == Action::Quit,
{
}

} // verus!
