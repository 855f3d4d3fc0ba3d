//! The interactive transcript.

pub mod app;
pub mod input;
pub mod ui;

pub use app::{App, InputMode};
pub use input::{handle_key, KeyAction};
