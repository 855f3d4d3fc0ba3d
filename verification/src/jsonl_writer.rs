//! The event log as it is written: one event per line, numbered from one.

use vstd::prelude::*;

use crate::events::Event;
use crate::json::{all_plain, object_text};
use crate::text;

verus! {

/// An event that was written.
#[derive(Debug)]
pub struct WrittenEvent<'a> {
    /// The event, with its ID.
    pub event: &'a Event,
    /// What is appended to the file for it.
    pub line: String,
}

/// Numbers the events of a session and writes each as one line.
pub struct JsonlWriter {
    next_id: u64,
}

impl View for JsonlWriter {
    type V = u64;

    /// The number of the next event.
    closed spec fn view(&self) -> u64 {
        self.next_id
    }
}

impl JsonlWriter {
    /// A writer whose first event gets the number one.
    pub fn new() -> (writer: Self)
        ensures
            writer@ == 1,
    {
        JsonlWriter { next_id: 1 }
    }

    /// The next event ID.
    pub fn next_id(&mut self) -> (id: u64)
        requires
            old(self)@ < u64::MAX,
        ensures
            id == old(self)@,
            final(self)@ == old(self)@ + 1,
    {
        let id: u64 = self.next_id;
        self.next_id = self.next_id + 1;
        id
    }

    /// The next event ID, without taking it.
    pub fn peek_id(&self) -> (id: u64)
        ensures
            id == self@,
    {
        self.next_id
    }

    /// Writes an event: its line and a line break. Returns the event with its ID.
    pub fn write<'a>(&self, event: &'a Event) -> (written: WrittenEvent<'a>)
        ensures
            *written.event == *event,
            written.line@ == object_text(event.members()) + "\n"@,
            event.is_spelled_out(),
            all_plain(event.members()),
    {
        let mut line = event.log_line();
        line.append("\n");
        WrittenEvent { event, line }
    }
}

} // verus!
