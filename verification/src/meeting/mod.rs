//! Meeting mode.

pub mod collection;
pub mod live;
pub mod phrase_buffer;

pub use phrase_buffer::PhraseBuffer;
