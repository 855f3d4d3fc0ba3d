//! Events passed between the threads of the application.

use vstd::prelude::*;

use crate::events::AudioSource;

verus! {

/// Internal events passed between threads.
#[derive(Debug, Clone)]
pub enum AppEvent {
    /// Transcribed segment from the audio thread.
    Transcript {
        /// Where the audio came from.
        source: AudioSource,
        /// What was said.
        text: String,
        /// When the segment starts, in milliseconds of the session.
        start_ms: u64,
        /// When the segment ends, in milliseconds of the session.
        end_ms: u64,
    },
    /// Request to quit the application.
    Quit,
}

} // verus!
