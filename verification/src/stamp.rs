//! Moments of civil time, written out by `chrono`.

use chrono::{DateTime, SecondsFormat};
use vstd::prelude::*;

verus! {

/// What `DateTime::to_rfc3339_opts` writes for the moment `secs` seconds and
/// `nanos` nanoseconds after the Unix epoch, with the fraction of a second that
/// it needs and `Z` for the zone; `None` when `DateTime::from_timestamp` has no
/// such moment.
pub uninterp spec fn zulu_text(secs: i64, nanos: u32) -> Option<Seq<char>>;

/// What `DateTime::to_rfc3339` writes for the moment `secs` seconds and `nanos`
/// nanoseconds after the Unix epoch, in UTC; `None` when
/// `DateTime::from_timestamp` has no such moment.
pub uninterp spec fn rfc3339_text(secs: i64, nanos: u32) -> Option<Seq<char>>;

/// How a moment is written in the name of a session: the date and the time in
/// digits.
pub const COMPACT_FORMAT: &'static str = "%Y%m%d_%H%M%S";

/// What `DateTime::format` writes in this format for the moment `secs` seconds
/// after the Unix epoch, in UTC; `None` when `DateTime::from_timestamp` has no
/// such moment.
pub uninterp spec fn formatted_text(secs: i64, format: Seq<char>) -> Option<Seq<char>>;

/// A moment as it is written in the name of a session.
pub open spec fn compact_text(secs: i64) -> Option<Seq<char>> {
    formatted_text(secs, COMPACT_FORMAT@)
}

/// Calls `DateTime::to_rfc3339_opts`. The text is fixed by the moment.
#[verifier::external_body]
fn zulu(secs: i64, nanos: u32) -> (s: Option<String>)
    ensures
        match s {
            Some(text) => zulu_text(secs, nanos) == Some(text@),
            None => zulu_text(secs, nanos) is None,
        },
{
    let moment = DateTime::from_timestamp(secs, nanos)?;
    Some(moment.to_rfc3339_opts(SecondsFormat::AutoSi, true))
}

/// Calls `DateTime::to_rfc3339`. The text is fixed by the moment.
#[verifier::external_body]
fn rfc3339(secs: i64, nanos: u32) -> (s: Option<String>)
    ensures
        match s {
            Some(text) => rfc3339_text(secs, nanos) == Some(text@),
            None => rfc3339_text(secs, nanos) is None,
        },
{
    let moment = DateTime::from_timestamp(secs, nanos)?;
    Some(moment.to_rfc3339())
}

/// Calls `DateTime::format`. The text is fixed by the moment and the format. A
/// format that `chrono` does not know would panic, so only one that it knows is
/// admitted.
#[verifier::external_body]
fn formatted(secs: i64, format: &str) -> (s: Option<String>)
    requires
        format@ == COMPACT_FORMAT@,
    ensures
        match s {
            Some(text) => formatted_text(secs, format@) == Some(text@),
            None => formatted_text(secs, format@) is None,
        },
{
    let moment = DateTime::from_timestamp(secs, 0)?;
    Some(moment.format(format).to_string())
}

/// A moment as it is written in the name of a session; `None` when there is no
/// such moment.
pub fn compact(secs: i64) -> (s: Option<String>)
    ensures
        match s {
            Some(text) => compact_text(secs) == Some(text@),
            None => compact_text(secs) is None,
        },
{
    formatted(secs, COMPACT_FORMAT)
}

/// A moment in UTC, as it is written in the event log.
#[derive(Debug, Clone)]
pub struct Timestamp {
    text: String,
}

impl View for Timestamp {
    type V = Seq<char>;

    closed spec fn view(&self) -> Seq<char> {
        self.text@
    }
}

impl Timestamp {
    /// The moment `secs` seconds and `nanos` nanoseconds after the Unix epoch;
    /// `None` when there is no such moment.
    pub fn from_unix(secs: i64, nanos: u32) -> (ts: Option<Timestamp>)
        ensures
            match ts {
                Some(t) => zulu_text(secs, nanos) == Some(t@),
                None => zulu_text(secs, nanos) is None,
            },
    {
        match zulu(secs, nanos) {
            Some(text) => Some(Timestamp { text }),
            None => None,
        }
    }

    /// The moment `secs` seconds and `nanos` nanoseconds after the Unix epoch,
    /// with the zone written as an offset; `None` when there is no such moment.
    pub fn from_unix_with_offset(secs: i64, nanos: u32) -> (ts: Option<Timestamp>)
        ensures
            match ts {
                Some(t) => rfc3339_text(secs, nanos) == Some(t@),
                None => rfc3339_text(secs, nanos) is None,
            },
    {
        match rfc3339(secs, nanos) {
            Some(text) => Some(Timestamp { text }),
            None => None,
        }
    }

    /// The moment in RFC 3339 notation.
    pub fn as_str(&self) -> (s: &str)
        ensures
            s@ == self@,
    {
        self.text.as_str()
    }
}

/// A moment in the name of a session is its date and its time to the second.
pub proof fn law_compact_moments(secs: i64)
    ensures
        compact_text(secs) == formatted_text(secs, "%Y%m%d_%H%M%S"@),
{
}

} // verus!
