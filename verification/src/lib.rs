//! Meeting transcription: the event log, phrase assembly, the interactive
//! transcript, and the post-meeting pipeline.

pub mod app_event;
pub mod audio;
pub mod clock;
pub mod event_log;
pub mod events;
pub mod json;
pub mod jsonl_writer;
pub mod kyutai;
pub mod listen;
pub mod meeting;
pub mod paths;
pub mod phrase_buffer;
pub mod retranscribe;
pub mod session;
pub mod speakers;
pub mod stamp;
pub mod summary;
pub mod text;
pub mod transcript;
pub mod tui;
