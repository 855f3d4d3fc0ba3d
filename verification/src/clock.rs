//! Points on the monotonic clock and the time between them.

use std::time::{Duration, Instant};
use vstd::prelude::*;

verus! {

/// A point on the monotonic clock of `std::time`.
#[verifier::external_type_specification]
#[verifier::external_body]
pub struct ExInstant(std::time::Instant);

/// Where a point of the clock lies, in nanoseconds from an origin that all
/// points share.
pub uninterp spec fn nanos_at(point: Instant) -> nat;

/// How long a duration is, in nanoseconds.
pub uninterp spec fn nanos_in(d: Duration) -> nat;

/// `std::time::Instant::now` reads the clock. Nothing is said of the reading.
pub assume_specification[ std::time::Instant::now ]() -> Instant;

/// `std::time::Instant::duration_since` is the time from one point to another,
/// and no time at all when the second point is the earlier one.
pub assume_specification[ std::time::Instant::duration_since ](
    later: &Instant,
    earlier: Instant,
) -> (d: Duration)
    ensures
        nanos_in(d) == if nanos_at(*later) >= nanos_at(earlier) {
            (nanos_at(*later) - nanos_at(earlier)) as nat
        } else {
            0
        },
;

/// `std::time::Duration::as_millis` is the number of whole milliseconds in a
/// duration.
pub assume_specification[ std::time::Duration::as_millis ](d: &Duration) -> (ms: u128)
    ensures
        ms == nanos_in(*d) / 1_000_000,
;

/// The whole milliseconds from `earlier` to `later`; none when `later` comes
/// first.
pub open spec fn millis_between(later: Instant, earlier: Instant) -> nat {
    if nanos_at(later) >= nanos_at(earlier) {
        ((nanos_at(later) - nanos_at(earlier)) / 1_000_000) as nat
    } else {
        0
    }
}

/// A number of milliseconds as it is kept in the transcript.
pub open spec fn millis64(ms: nat) -> u64 {
    (ms as u128) as u64
}

/// The whole milliseconds from `earlier` to `later`.
pub fn millis_since(later: Instant, earlier: Instant) -> (ms: u128)
    ensures
        ms == millis_between(later, earlier),
{
    later.duration_since(earlier).as_millis()
}

/// The whole milliseconds from `earlier` to `later`, as they are kept in the
/// transcript.
pub fn millis64_since(later: Instant, earlier: Instant) -> (ms: u64)
    ensures
        ms == millis64(millis_between(later, earlier)),
{
    millis_since(later, earlier) as u64
}

/// A point that is some milliseconds and less than one more after another is
/// that many milliseconds after it; a point that is not after it is none. A
/// number of milliseconds is kept as it is.
pub proof fn law_milliseconds(later: Instant, earlier: Instant, ms: nat)
    ensures
        nanos_at(earlier) + 1_000_000 * ms <= nanos_at(later) < nanos_at(earlier) + 1_000_000 * (ms
            + 1) ==> millis_between(later, earlier) == ms,
        nanos_at(later) <= nanos_at(earlier) ==> millis_between(later, earlier) == 0,
        ms <= u64::MAX ==> millis64(ms) == ms,
{
}

} // verus!
