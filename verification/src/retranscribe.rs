//! Replacing the draft segments of a log by those of the batch model.

use serde_json::Value;
use vstd::prelude::*;

use crate::event_log::{
    all_flat, contents, is_line, is_value_log, log_text, logged, read_events_jsonl, write_events_jsonl,
};
use crate::events::{number_json, text_json, AudioSource, Event};
use crate::json;
use crate::json::{
    all_plain, json, lemma_member_found, lemma_member_missing, member_map, written, Json,
    Member,
};
use crate::stamp::Timestamp;
use crate::text;

verus! {

/// How many samples a millisecond has at 16kHz.
pub const SAMPLES_PER_MS: u64 = 16;

/// A segment that the batch model recognised.
#[derive(Debug)]
pub struct NewSegment {
    /// When it was logged.
    pub ts: Timestamp,
    /// Where the audio came from.
    pub src: &'static str,
    /// What is said.
    pub text: String,
    /// When it starts, in milliseconds of the session.
    pub start_ms: u64,
    /// When it ends, in milliseconds of the session.
    pub end_ms: u64,
}

/// The samples of a stretch of muxed audio: those from its start to its end or
/// the end of the audio, if there are any.
pub open spec fn samples_of(start_ms: u64, end_ms: u64, muxed_len: nat) -> Option<(nat, nat)> {
    let from = (start_ms * SAMPLES_PER_MS) as nat;
    let to = if end_ms * SAMPLES_PER_MS < muxed_len {
        (end_ms * SAMPLES_PER_MS) as nat
    } else {
        muxed_len
    };
    if from < to {
        Some((from, to))
    } else {
        None
    }
}

/// The part of such a stretch that lies within one source, which may be
/// shorter; `None` when the source ends before the stretch starts.
pub open spec fn part_within(range: (usize, usize), source_len: nat) -> Option<(nat, nat)> {
    let to = if range.1 < source_len {
        range.1 as nat
    } else {
        source_len
    };
    if range.0 <= to {
        Some((range.0 as nat, to))
    } else {
        None
    }
}

/// Where a segment comes from: the only source there is, or the one whose sound
/// prevails in the segment, which is unknown for a segment without samples.
pub open spec fn origin(has_mic: bool, has_sys: bool, has_samples: bool, mic_prevails: bool) -> Seq<
    char,
> {
    if has_mic && has_sys {
        if !has_samples {
            "unknown"@
        } else if mic_prevails {
            "local"@
        } else {
            "remote"@
        }
    } else if has_mic {
        "local"@
    } else {
        "remote"@
    }
}

/// The samples of a stretch of muxed audio.
pub fn sample_range(start_ms: u64, end_ms: u64, muxed_len: usize) -> (range: Option<(usize, usize)>)
    requires
        start_ms * SAMPLES_PER_MS <= usize::MAX,
        end_ms * SAMPLES_PER_MS <= usize::MAX,
    ensures
        match range {
            Some((from, to)) => samples_of(start_ms, end_ms, muxed_len as nat) == Some(
                (from as nat, to as nat),
            ),
            None => samples_of(start_ms, end_ms, muxed_len as nat) is None,
        },
{
    let from: usize = (start_ms as usize) * (SAMPLES_PER_MS as usize);
    let end: usize = (end_ms as usize) * (SAMPLES_PER_MS as usize);
    let to: usize = if end < muxed_len {
        end
    } else {
        muxed_len
    };
    if from < to {
        Some((from, to))
    } else {
        None
    }
}

/// The part of a stretch that lies within one source.
pub fn source_range(range: (usize, usize), source_len: usize) -> (part: Option<(usize, usize)>)
    ensures
        match part {
            Some((from, to)) => part_within(range, source_len as nat) == Some(
                (from as nat, to as nat),
            ),
            None => part_within(range, source_len as nat) is None,
        },
{
    let to: usize = if range.1 < source_len {
        range.1
    } else {
        source_len
    };
    if range.0 <= to {
        Some((range.0, to))
    } else {
        None
    }
}

/// Where a segment comes from.
pub fn segment_source(has_mic: bool, has_sys: bool, has_samples: bool, mic_prevails: bool) -> (src:
    &'static str)
    ensures
        src@ == origin(has_mic, has_sys, has_samples, mic_prevails),
{
    if has_mic && has_sys {
        if !has_samples {
            "unknown"
        } else if mic_prevails {
            "local"
        } else {
            "remote"
        }
    } else if has_mic {
        "local"
    } else {
        "remote"
    }
}

/// A transcribed segment.
pub open spec fn is_segment(event: Json) -> bool {
    event.text_at("type"@) == Some("segment"@)
}

/// The events that are no segments, in their order.
pub open spec fn without_segments(events: Seq<Json>) -> Seq<Json> {
    events.filter(|event: Json| !is_segment(event))
}

/// The highest number of the events; zero when none has one.
pub open spec fn highest_id(events: Seq<Json>) -> u64
    decreases events.len(),
{
    if events.len() == 0 {
        0
    } else {
        let earlier = highest_id(events.drop_last());
        match events.last().natural_at("id"@) {
            Some(id) => if id > earlier {
                id
            } else {
                earlier
            },
            None => earlier,
        }
    }
}

/// The segments that say something, as they are logged, numbered from
/// `next_id` on.
pub open spec fn segment_events(segments: Seq<NewSegment>, next_id: int) -> Seq<Json>
    decreases segments.len(),
{
    if segments.len() == 0 {
        Seq::empty()
    } else {
        let earlier = segment_events(segments.drop_last(), next_id);
        if text::trimmed(segments.last().text@).len() > 0 {
            earlier.push(segment_event(segments.last(), next_id + earlier.len()))
        } else {
            earlier
        }
    }
}

/// A segment as it is logged.
pub open spec fn segment_event(segment: NewSegment, id: int) -> Json {
    Json::Object(
        Map::empty().insert("type"@, text_json("segment"@)).insert("id"@, number_json(id as u64)).insert(
            "ts"@,
            text_json(segment.ts@),
        ).insert("src"@, text_json(segment.src@)).insert(
            "text"@,
            text_json(text::trimmed(segment.text@)),
        ).insert("start_ms"@, number_json(segment.start_ms)).insert(
            "end_ms"@,
            number_json(segment.end_ms),
        ),
    )
}

/// The time by which an event is ordered: its start, its offset or its
/// duration, whichever it has first, if that is a number.
pub open spec fn time_of(event: Json) -> u64 {
    let time = if event.member("start_ms"@) is Some {
        event.natural_at("start_ms"@)
    } else if event.member("offset_ms"@) is Some {
        event.natural_at("offset_ms"@)
    } else {
        event.natural_at("duration_ms"@)
    };
    match time {
        Some(ms) => ms,
        None => 0,
    }
}

/// How many events an event of this time is put behind: those up to the last
/// one whose time is not later.
pub open spec fn place_in(events: Seq<Json>, time: u64) -> int
    decreases events.len(),
{
    if events.len() == 0 || time_of(events.last()) <= time {
        events.len() as int
    } else {
        place_in(events.drop_last(), time)
    }
}

/// The events by time; those of one time in the order in which they were.
pub open spec fn by_time(events: Seq<Json>) -> Seq<Json>
    decreases events.len(),
{
    if events.len() == 0 {
        Seq::empty()
    } else {
        let earlier = by_time(events.drop_last());
        earlier.insert(place_in(earlier, time_of(events.last())), events.last())
    }
}

/// The events stand by time.
pub open spec fn is_by_time(events: Seq<Json>) -> bool {
    forall|i: int, j: int|
        0 <= i <= j < events.len() ==> time_of(#[trigger] events[i]) <= time_of(
            #[trigger] events[j],
        )
}

/// The log after its draft segments were replaced.
pub open spec fn replaced(events: Seq<Json>, segments: Seq<NewSegment>) -> Seq<Json> {
    let kept = without_segments(events);
    by_time(kept + segment_events(segments, highest_id(kept) + 1))
}

/// The numbers for the new segments do not run out.
pub open spec fn ids_suffice(events: Seq<Json>, segments: Seq<NewSegment>) -> bool {
    let kept = without_segments(events);
    highest_id(kept) + 1 + segment_events(segments, highest_id(kept) + 1).len() <= u64::MAX
}

/// The time by which an event is ordered.
pub fn event_time(event: &Value) -> (time: u64)
    ensures
        time == time_of(json(*event)),
{
    let time: Option<u64> = match json::get(event, "start_ms") {
        Some(start) => start.as_u64(),
        None => match json::get(event, "offset_ms") {
            Some(offset) => offset.as_u64(),
            None => json::natural_at(event, "duration_ms"),
        },
    };
    match time {
        Some(ms) => ms,
        None => 0,
    }
}

proof fn lemma_place_in(events: Seq<Json>, time: u64, place: int)
    requires
        0 <= place <= events.len(),
        forall|i: int| 0 <= i < place ==> time_of(#[trigger] events[i]) <= time,
        forall|i: int| place <= i < events.len() ==> time_of(#[trigger] events[i]) > time,
    ensures
        place_in(events, time) == place,
    decreases events.len(),
{
    if events.len() > place {
        let last = events[events.len() - 1];
        lemma_place_in(events.drop_last(), time, place);
    }
}

proof fn lemma_place_bounds(events: Seq<Json>, time: u64)
    requires
        is_by_time(events),
    ensures
        0 <= place_in(events, time) <= events.len(),
        forall|i: int| 0 <= i < place_in(events, time) ==> time_of(#[trigger] events[i]) <= time,
        forall|i: int|
            place_in(events, time) <= i < events.len() ==> time_of(#[trigger] events[i]) > time,
    decreases events.len(),
{
    if events.len() > 0 {
        let last = events.len() - 1;
        let fewer = events.drop_last();
        if time_of(events[last]) > time {
            lemma_place_bounds(fewer, time);
            assert forall|i: int| 0 <= i < place_in(events, time) implies time_of(
                #[trigger] events[i],
            ) <= time by {
                assert(fewer[i] == events[i]);
            }
            assert forall|i: int| place_in(events, time) <= i < events.len() implies time_of(
                #[trigger] events[i],
            ) > time by {
                if i < last {
                    assert(fewer[i] == events[i]);
                }
            }
        }
    }
}

/// Sorting by time leaves the events by time.
pub proof fn law_log_is_by_time(events: Seq<Json>)
    ensures
        is_by_time(by_time(events)),
        by_time(events).len() == events.len(),
    decreases events.len(),
{
    if events.len() > 0 {
        law_log_is_by_time(events.drop_last());
        lemma_place_bounds(by_time(events.drop_last()), time_of(events.last()));
    }
}

/// Sorting by time loses no event and makes none up.
pub proof fn law_sorting_keeps_the_events(events: Seq<Json>)
    ensures
        by_time(events).to_multiset() == events.to_multiset(),
    decreases events.len(),
{
    if events.len() > 0 {
        let fewer = events.drop_last();
        law_sorting_keeps_the_events(fewer);
        law_log_is_by_time(fewer);
        lemma_place_bounds(by_time(fewer), time_of(events.last()));
        let place = place_in(by_time(fewer), time_of(events.last()));
        broadcast use vstd::seq_lib::group_to_multiset_ensures;

        assert(fewer.push(events.last()) =~= events);
        assert(fewer.push(events.last()).to_multiset() == fewer.to_multiset().insert(
            events.last(),
        ));
        assert(by_time(events).to_multiset() == by_time(fewer).to_multiset().insert(events.last()));
    } else {
        assert(events =~= by_time(events));
    }
}

/// The events of one time.
pub open spec fn at_time(events: Seq<Json>, time: u64) -> Seq<Json> {
    events.filter(|event: Json| time_of(event) == time)
}

/// Events of one time stay in the order in which they were.
pub proof fn law_sorting_is_stable(events: Seq<Json>, time: u64)
    ensures
        at_time(by_time(events), time) == at_time(events, time),
    decreases events.len(),
{
    let same = |event: Json| time_of(event) == time;
    if events.len() > 0 {
        let fewer = events.drop_last();
        let sorted = by_time(fewer);
        let last = events.last();
        let place = place_in(sorted, time_of(last));
        law_sorting_is_stable(fewer, time);
        law_log_is_by_time(fewer);
        lemma_place_bounds(sorted, time_of(last));
        let head = sorted.take(place);
        let tail = sorted.skip(place);
        assert(sorted =~= head + tail);
        assert(by_time(events) =~= (head + seq![last]) + tail);
        Seq::filter_distributes_over_add(head, tail, same);
        Seq::filter_distributes_over_add(head + seq![last], tail, same);
        Seq::filter_distributes_over_add(head, seq![last], same);
        Seq::filter_distributes_over_add(fewer, seq![last], same);
        assert(fewer + seq![last] =~= events);
        if time_of(last) == time {
            assert forall|i: int| 0 <= i < tail.len() implies !same(#[trigger] tail[i]) by {
                assert(tail[i] == sorted[place + i]);
            }
            lemma_filter_none(tail, same);
        } else {
            assert(seq![last].filter(same) =~= Seq::empty()) by {
                lemma_filter_none(seq![last], same);
            }
        }
        assert(at_time(by_time(events), time) =~= at_time(events, time));
    }
}

/// Nothing is left where nothing fits.
proof fn lemma_filter_none(events: Seq<Json>, fits: spec_fn(Json) -> bool)
    requires
        forall|i: int| 0 <= i < events.len() ==> !fits(#[trigger] events[i]),
    ensures
        events.filter(fits) == Seq::<Json>::empty(),
    decreases events.len(),
{
    reveal(Seq::filter);
    if events.len() > 0 {
        let fewer = events.drop_last();
        assert forall|i: int| 0 <= i < fewer.len() implies !fits(#[trigger] fewer[i]) by {
            assert(fewer[i] == events[i]);
        }
        lemma_filter_none(fewer, fits);
        assert(!fits(events[events.len() - 1]));
    }
}

/// Sorts the events by time; those of one time keep their order.
pub fn sort_by_time(events: Vec<Value>) -> (sorted: Vec<Value>)
    ensures
        contents(sorted@) == by_time(contents(events@)),
{
    let ghost all = contents(events@);
    let mut sorted: Vec<Value> = Vec::new();
    assert(contents(sorted@) =~= by_time(all.take(0)));
    for event in it: events
        invariant
            it.seq() == events@,
            all == contents(events@),
            contents(sorted@) == by_time(all.take(it.index() as int)),
    {
        let ghost n = it.index() as int;
        let time: u64 = event_time(&event);
        let mut place: usize = sorted.len();
        proof {
            law_log_is_by_time(all.take(n));
        }
        while place > 0 && event_time(&sorted[place - 1]) > time
            invariant
                place <= sorted@.len(),
                forall|i: int| place <= i < sorted@.len() ==> time_of(
                    json(#[trigger] sorted@[i]),
                ) > time,
            decreases place,
        {
            place = place - 1;
        }
        let ghost before = sorted@;
        proof {
            let held = contents(before);
            assert forall|i: int| 0 <= i < place implies time_of(#[trigger] held[i]) <= time by {
                assert(time_of(held[i]) <= time_of(held[place - 1]));
            }
            assert forall|i: int| place <= i < held.len() implies time_of(#[trigger] held[i])
                > time by {
                assert(time_of(json(before[i])) > time);
            }
            lemma_place_in(held, time, place as int);
            assert(all.take(n + 1).drop_last() =~= all.take(n));
            assert(all.take(n + 1).last() == json(event));
            assert(contents(before.insert(place as int, event)) =~= held.insert(
                place as int,
                json(event),
            ));
        }
        sorted.insert(place, event);
    }
    assert(all.take(events@.len() as int) =~= all);
    sorted
}

/// The events that are no segments.
fn keep_others(events: Vec<Value>) -> (kept: Vec<Value>)
    ensures
        contents(kept@) == without_segments(contents(events@)),
{
    let ghost all = contents(events@);
    let ghost other = |event: Json| !is_segment(event);
    let mut kept: Vec<Value> = Vec::new();
    assert(all.take(0) =~= Seq::empty());
    proof {
        lemma_filter_none(all.take(0), other);
    }
    assert(contents(kept@) =~= all.take(0).filter(other));
    for event in it: events
        invariant
            it.seq() == events@,
            all == contents(events@),
            other == (|event: Json| !is_segment(event)),
            contents(kept@) == all.take(it.index() as int).filter(other),
    {
        let ghost n = it.index() as int;
        let ghost before = kept@;
        proof {
            assert(all.take(n + 1) =~= all.take(n).push(json(event)));
            reveal(Seq::filter);
            assert(all.take(n + 1).drop_last() =~= all.take(n));
        }
        if !json::text_is(&event, "type", "segment") {
            kept.push(event);
            assert(contents(kept@) =~= contents(before).push(json(event)));
        }
    }
    assert(all.take(events@.len() as int) =~= all);
    kept
}

/// The highest number of the events.
fn max_id(events: &Vec<Value>) -> (id: u64)
    ensures
        id == highest_id(contents(events@)),
{
    let ghost all = contents(events@);
    let mut id: u64 = 0;
    for i in 0..events.len()
        invariant
            all == contents(events@),
            id == highest_id(all.take(i as int)),
    {
        assert(all.take(i + 1).drop_last() =~= all.take(i as int));
        assert(all.take(i + 1).last() == json(events@[i as int]));
        if let Some(found) = json::natural_at(&events[i], "id") {
            if found > id {
                id = found;
            }
        }
    }
    assert(all.take(events@.len() as int) =~= all);
    id
}

/// A segment as it is logged.
fn segment_value(segment: &NewSegment, said: String, id: u64) -> (event: Value)
    requires
        said@ == text::trimmed(segment.text@),
    ensures
        json(event) == segment_event(*segment, id as int),
{
    let mut event = json::object_value();
    json::set(&mut event, "type", json::text_value("segment".to_owned()));
    json::set(&mut event, "id", json::number_value(id));
    json::set(&mut event, "ts", json::text_value(segment.ts.as_str().to_owned()));
    json::set(&mut event, "src", json::text_value(segment.src.to_owned()));
    json::set(&mut event, "text", json::text_value(said));
    json::set(&mut event, "start_ms", json::number_value(segment.start_ms));
    json::set(&mut event, "end_ms", json::number_value(segment.end_ms));
    event
}

proof fn lemma_segment_events_grow(segments: Seq<NewSegment>, next_id: int, n: int)
    requires
        0 <= n <= segments.len(),
    ensures
        segment_events(segments.take(n), next_id).len() <= segment_events(segments, next_id).len(),
    decreases segments.len(),
{
    if n < segments.len() {
        let fewer = segments.drop_last();
        lemma_segment_events_grow(fewer, next_id, n);
        assert(fewer.take(n) =~= segments.take(n));
    } else {
        assert(segments.take(n) =~= segments);
    }
}

/// Replaces the draft segments of a log: the other events stay, the new
/// segments that say something get the numbers behind theirs, and all of them
/// are put in order by time. `None` when there are not enough numbers.
pub fn checked_replace_segments(events: Vec<Value>, segments: &Vec<NewSegment>) -> (merged: Option<
    Vec<Value>,
>)
    ensures
        match merged {
            Some(m) => ids_suffice(contents(events@), segments@) && contents(m@) == replaced(
                contents(events@),
                segments@,
            ),
            None => !ids_suffice(contents(events@), segments@),
        },
{
    let mut merged = keep_others(events);
    let ghost kept = contents(merged@);
    let highest: u64 = max_id(&merged);
    if highest == u64::MAX {
        return None;
    }
    let first_id: u64 = highest + 1;
    let mut next_id: u64 = first_id;
    assert(kept + segment_events(segments@.take(0), first_id as int) =~= kept);
    for i in 0..segments.len()
        invariant
            kept == without_segments(contents(events@)),
            first_id == highest_id(kept) + 1,
            next_id == first_id + segment_events(segments@.take(i as int), first_id as int).len(),
            contents(merged@) == kept + segment_events(segments@.take(i as int), first_id as int),
    {
        let ghost before = merged@;
        let ghost done = segment_events(segments@.take(i as int), first_id as int);
        let ghost more = segment_events(segments@.take(i + 1), first_id as int);
        proof {
            assert(segments@.take(i + 1).drop_last() =~= segments@.take(i as int));
            lemma_segment_events_grow(segments@, first_id as int, i + 1);
        }
        let said = text::trim(segments[i].text.as_str());
        if !said.as_str().is_empty() {
            if next_id == u64::MAX {
                return None;
            }
            let event = segment_value(&segments[i], said, next_id);
            merged.push(event);
            next_id = next_id + 1;
            assert(contents(merged@) =~= contents(before).push(json(event)));
            assert(kept + more =~= (kept + done).push(json(event)));
        }
    }
    assert(segments@.take(segments@.len() as int) =~= segments@);
    Some(sort_by_time(merged))
}

/// Replaces the draft segments of a log for which there are enough numbers.
pub fn replace_segments(events: Vec<Value>, segments: &Vec<NewSegment>) -> (merged: Vec<Value>)
    requires
        ids_suffice(contents(events@), segments@),
    ensures
        contents(merged@) == replaced(contents(events@), segments@),
{
    checked_replace_segments(events, segments).unwrap()
}

/// Replaces the draft segments in the text of a log; `None` when there are not
/// enough numbers for the new ones. The new text is read back as it was meant.
pub fn retranscribed_log(log: &str, segments: &Vec<NewSegment>) -> (new_log: Option<String>)
    ensures
        ({
            let events = logged(text::lines_of(log@));
            match new_log {
                Some(content) => {
                    &&& ids_suffice(events, segments@)
                    &&& content@ == log_text(replaced(events, segments@))
                    &&& all_flat(events) ==> is_value_log(replaced(events, segments@))
                },
                None => !ids_suffice(events, segments@),
            }
        }),
{
    let events = read_events_jsonl(log);
    let ghost held = contents(events@);
    match checked_replace_segments(events, segments) {
        Some(merged) => {
            let content = write_events_jsonl(&merged);
            proof {
                let new = replaced(held, segments@);
                if all_flat(held) {
                    law_log_stays_flat(held, segments@);
                    assert forall|i: int| 0 <= i < new.len() implies (
                    #[trigger] new[i]).is_flat() && is_line(written(new[i])) by {
                        assert(new[i] == json(merged@[i]));
                    }
                }
            }
            Some(content)
        },
        None => None,
    }
}

/// Every event that is no segment is still in the log after the segments were
/// replaced, as often as before, and every other event is one of the new
/// segments.
pub proof fn law_other_events_survive(events: Seq<Json>, segments: Seq<NewSegment>)
    ensures
        ({
            let kept = without_segments(events);
            replaced(events, segments).to_multiset() == kept.to_multiset().add(
                segment_events(segments, highest_id(kept) + 1).to_multiset(),
            )
        }),
        is_by_time(replaced(events, segments)),
{
    let kept = without_segments(events);
    let new = segment_events(segments, highest_id(kept) + 1);
    law_sorting_keeps_the_events(kept + new);
    law_log_is_by_time(kept + new);
    vstd::seq_lib::lemma_multiset_commutative(kept, new);
}

/// No event that is kept has the number of a new segment, and no two new
/// segments have the same.
pub proof fn law_new_ids_are_free(events: Seq<Json>, segments: Seq<NewSegment>)
    requires
        ids_suffice(events, segments),
    ensures
        ({
            let kept = without_segments(events);
            let new = segment_events(segments, highest_id(kept) + 1);
            &&& forall|i: int|
                0 <= i < new.len() ==> (#[trigger] new[i]).natural_at("id"@) == Some(
                    (highest_id(kept) + 1 + i) as u64,
                )
            &&& forall|i: int|
                0 <= i < kept.len() ==> match (#[trigger] kept[i]).natural_at("id"@) {
                    Some(id) => id <= highest_id(kept),
                    None => true,
                }
        }),
{
    let kept = without_segments(events);
    lemma_new_ids(segments, highest_id(kept) + 1);
    lemma_highest(kept);
}

/// A log of objects of plain members stays one when its segments are replaced,
/// so what is written of it is read back.
pub proof fn law_log_stays_flat(events: Seq<Json>, segments: Seq<NewSegment>)
    requires
        all_flat(events),
    ensures
        all_flat(replaced(events, segments)),
{
    let kept = without_segments(events);
    let new = segment_events(segments, highest_id(kept) + 1);
    let other = |event: Json| !is_segment(event);
    assert forall|i: int| 0 <= i < kept.len() implies (#[trigger] kept[i]).is_flat() by {
        events.lemma_filter_contains_rev(other, kept[i]);
        let j = choose|j: int| 0 <= j < events.len() && events[j] == kept[i];
        assert(events[j].is_flat());
    }
    lemma_new_flat(segments, highest_id(kept) + 1);
    assert forall|i: int| 0 <= i < (kept + new).len() implies (
    #[trigger] (kept + new)[i]).is_flat() by {
        if i < kept.len() {
            assert(kept[i].is_flat());
        } else {
            assert(new[i - kept.len()].is_flat());
        }
    }
    lemma_by_time_flat(kept + new);
}

proof fn lemma_new_flat(segments: Seq<NewSegment>, next_id: int)
    ensures
        all_flat(segment_events(segments, next_id)),
    decreases segments.len(),
{
    if segments.len() > 0 {
        lemma_new_flat(segments.drop_last(), next_id);
    }
}

proof fn lemma_by_time_flat(events: Seq<Json>)
    requires
        all_flat(events),
    ensures
        all_flat(by_time(events)),
    decreases events.len(),
{
    if events.len() > 0 {
        let fewer = events.drop_last();
        assert forall|i: int| 0 <= i < fewer.len() implies (#[trigger] fewer[i]).is_flat() by {
            assert(events[i].is_flat());
        }
        lemma_by_time_flat(fewer);
        law_log_is_by_time(fewer);
        let sorted = by_time(fewer);
        let place = place_in(sorted, time_of(events.last()));
        lemma_place_bounds(sorted, time_of(events.last()));
        let last = events[events.len() - 1];
        assert(last.is_flat());
        assert forall|i: int| 0 <= i < by_time(events).len() implies (
        #[trigger] by_time(events)[i]).is_flat() by {
            if i < place {
                assert(sorted[i].is_flat());
            } else if i > place {
                assert(sorted[i - 1].is_flat());
            }
        }
    }
}

proof fn lemma_new_ids(segments: Seq<NewSegment>, next_id: int)
    ensures
        ({
            let new = segment_events(segments, next_id);
            forall|i: int|
                0 <= i < new.len() ==> (#[trigger] new[i]).natural_at("id"@) == Some(
                    (next_id + i) as u64,
                )
        }),
    decreases segments.len(),
{
    if segments.len() > 0 {
        lemma_new_ids(segments.drop_last(), next_id);
        lemma_segment_id(
            segments.last(),
            next_id + segment_events(segments.drop_last(), next_id).len(),
        );
    }
}

proof fn lemma_segment_id(segment: NewSegment, id: int)
    ensures
        segment_event(segment, id).natural_at("id"@) == Some(id as u64),
{
    reveal_strlit("id");
    reveal_strlit("ts");
    reveal_strlit("src");
    reveal_strlit("text");
    reveal_strlit("start_ms");
    reveal_strlit("end_ms");
    assert("id"@[0] != "ts"@[0]);
    assert("id"@.len() != "src"@.len());
    assert("id"@.len() != "text"@.len());
    assert("id"@.len() != "start_ms"@.len());
    assert("id"@.len() != "end_ms"@.len());
}

proof fn lemma_highest(events: Seq<Json>)
    ensures
        forall|i: int|
            0 <= i < events.len() ==> match (#[trigger] events[i]).natural_at("id"@) {
                Some(id) => id <= highest_id(events),
                None => true,
            },
    decreases events.len(),
{
    if events.len() > 0 {
        let fewer = events.drop_last();
        lemma_highest(fewer);
        assert forall|i: int| 0 <= i < events.len() implies match (
        #[trigger] events[i]).natural_at("id"@) {
            Some(id) => id <= highest_id(events),
            None => true,
        } by {
            if i < fewer.len() {
                assert(fewer[i] == events[i]);
            }
        }
    }
}

/// The names of the members of events differ.
proof fn lemma_names_differ()
    ensures
        "type"@ != "id"@,
        "type"@ != "ts"@,
        "type"@ != "session_id"@,
        "type"@ != "src"@,
        "type"@ != "text"@,
        "type"@ != "start_ms"@,
        "type"@ != "end_ms"@,
        "type"@ != "speaker"@,
        "type"@ != "offset_ms"@,
        "type"@ != "label"@,
        "type"@ != "duration_ms"@,
        "type"@ != "filename"@,
        "id"@ != "ts"@,
        "id"@ != "session_id"@,
        "id"@ != "src"@,
        "id"@ != "text"@,
        "id"@ != "start_ms"@,
        "id"@ != "end_ms"@,
        "id"@ != "speaker"@,
        "id"@ != "offset_ms"@,
        "id"@ != "label"@,
        "id"@ != "duration_ms"@,
        "id"@ != "filename"@,
        "start_ms"@ != "ts"@,
        "start_ms"@ != "session_id"@,
        "start_ms"@ != "src"@,
        "start_ms"@ != "text"@,
        "start_ms"@ != "end_ms"@,
        "start_ms"@ != "speaker"@,
        "start_ms"@ != "offset_ms"@,
        "start_ms"@ != "label"@,
        "start_ms"@ != "duration_ms"@,
        "start_ms"@ != "filename"@,
        "offset_ms"@ != "ts"@,
        "offset_ms"@ != "session_id"@,
        "offset_ms"@ != "src"@,
        "offset_ms"@ != "text"@,
        "offset_ms"@ != "end_ms"@,
        "offset_ms"@ != "speaker"@,
        "offset_ms"@ != "label"@,
        "offset_ms"@ != "duration_ms"@,
        "offset_ms"@ != "filename"@,
        "duration_ms"@ != "ts"@,
        "duration_ms"@ != "session_id"@,
        "duration_ms"@ != "src"@,
        "duration_ms"@ != "text"@,
        "duration_ms"@ != "end_ms"@,
        "duration_ms"@ != "speaker"@,
        "duration_ms"@ != "label"@,
        "duration_ms"@ != "filename"@,
{
    reveal_strlit("type");
    reveal_strlit("id");
    reveal_strlit("ts");
    reveal_strlit("session_id");
    reveal_strlit("src");
    reveal_strlit("text");
    reveal_strlit("start_ms");
    reveal_strlit("end_ms");
    reveal_strlit("speaker");
    reveal_strlit("offset_ms");
    reveal_strlit("label");
    reveal_strlit("duration_ms");
    reveal_strlit("filename");
    assert("type"@.len() != "id"@.len());
    assert("type"@.len() != "ts"@.len());
    assert("type"@.len() != "session_id"@.len());
    assert("type"@.len() != "src"@.len());
    assert("type"@[1] != "text"@[1]);
    assert("type"@.len() != "start_ms"@.len());
    assert("type"@.len() != "end_ms"@.len());
    assert("type"@.len() != "speaker"@.len());
    assert("type"@.len() != "offset_ms"@.len());
    assert("type"@.len() != "label"@.len());
    assert("type"@.len() != "duration_ms"@.len());
    assert("type"@.len() != "filename"@.len());
    assert("id"@[0] != "ts"@[0]);
    assert("id"@.len() != "session_id"@.len());
    assert("id"@.len() != "src"@.len());
    assert("id"@.len() != "text"@.len());
    assert("id"@.len() != "start_ms"@.len());
    assert("id"@.len() != "end_ms"@.len());
    assert("id"@.len() != "speaker"@.len());
    assert("id"@.len() != "offset_ms"@.len());
    assert("id"@.len() != "label"@.len());
    assert("id"@.len() != "duration_ms"@.len());
    assert("id"@.len() != "filename"@.len());
    assert("start_ms"@.len() != "ts"@.len());
    assert("start_ms"@.len() != "session_id"@.len());
    assert("start_ms"@.len() != "src"@.len());
    assert("start_ms"@.len() != "text"@.len());
    assert("start_ms"@.len() != "end_ms"@.len());
    assert("start_ms"@.len() != "speaker"@.len());
    assert("start_ms"@.len() != "offset_ms"@.len());
    assert("start_ms"@.len() != "label"@.len());
    assert("start_ms"@.len() != "duration_ms"@.len());
    assert("start_ms"@[0] != "filename"@[0]);
    assert("offset_ms"@.len() != "ts"@.len());
    assert("offset_ms"@.len() != "session_id"@.len());
    assert("offset_ms"@.len() != "src"@.len());
    assert("offset_ms"@.len() != "text"@.len());
    assert("offset_ms"@.len() != "end_ms"@.len());
    assert("offset_ms"@.len() != "speaker"@.len());
    assert("offset_ms"@.len() != "label"@.len());
    assert("offset_ms"@.len() != "duration_ms"@.len());
    assert("offset_ms"@.len() != "filename"@.len());
    assert("duration_ms"@.len() != "ts"@.len());
    assert("duration_ms"@.len() != "session_id"@.len());
    assert("duration_ms"@.len() != "src"@.len());
    assert("duration_ms"@.len() != "text"@.len());
    assert("duration_ms"@.len() != "end_ms"@.len());
    assert("duration_ms"@.len() != "speaker"@.len());
    assert("duration_ms"@.len() != "label"@.len());
    assert("duration_ms"@.len() != "filename"@.len());
}

/// An event that was logged has its type and its number, and the time by which
/// a log is ordered is the one by which the transcript is.
pub proof fn law_logged_event_keeps_its_time(event: Event)
    ensures
        ({
            let logged = Json::Object(member_map(event.members()));
            &&& logged.is_flat()
            &&& logged.text_at("type"@) == Some(event.kind())
            &&& logged.natural_at("id"@) == Some(event.number())
            &&& time_of(logged) == event.offset()
        }),
{
    let members = event.members();
    lemma_names_differ();
    lemma_plain_is_flat(members);
    lemma_member_found(members, 0);
    lemma_member_found(members, 1);
    match event {
        Event::SessionStart { .. } => {
            lemma_member_missing(members, "start_ms"@);
            lemma_member_missing(members, "offset_ms"@);
            lemma_member_missing(members, "duration_ms"@);
        },
        Event::Segment { .. } => {
            lemma_member_found(members, 5);
        },
        Event::SessionEnd { .. } => {
            lemma_member_missing(members, "start_ms"@);
            lemma_member_missing(members, "offset_ms"@);
            lemma_member_found(members, 3);
        },
        _ => {
            lemma_member_missing(members, "start_ms"@);
            lemma_member_found(members, 3);
        },
    }
}

proof fn lemma_plain_is_flat(members: Seq<Member>)
    requires
        all_plain(members),
    ensures
        Json::Object(member_map(members)).is_flat(),
    decreases members.len(),
{
    if members.len() > 0 {
        let fewer = members.drop_last();
        assert forall|i: int| 0 <= i < fewer.len() implies (#[trigger] fewer[i]).1.is_plain() by {
            assert(members[i].1.is_plain());
        }
        lemma_plain_is_flat(fewer);
        assert(members[members.len() - 1].1.is_plain());
    }
}

/// Keeping the other events keeps each of them as often as it is there, and no
/// segment.
proof fn lemma_kept_count(events: Seq<Json>, event: Json)
    ensures
        without_segments(events).to_multiset().count(event) == if event.text_at("type"@) == Some(
            "segment"@,
        ) {
            0
        } else {
            events.to_multiset().count(event)
        },
    decreases events.len(),
{
    broadcast use vstd::seq_lib::group_to_multiset_ensures;

    reveal(Seq::filter);
    if events.len() == 0 {
        assert(without_segments(events) =~= Seq::empty());
        assert(events =~= Seq::empty());
    } else {
        let fewer = events.drop_last();
        lemma_kept_count(fewer, event);
        assert(events =~= fewer.push(events.last()));
        assert(events.to_multiset() =~= fewer.to_multiset().insert(events.last()));
        if !is_segment(events.last()) {
            let kept = without_segments(fewer);
            assert(without_segments(events) =~= kept.push(events.last()));
            assert(without_segments(events).to_multiset() =~= kept.to_multiset().insert(
                events.last(),
            ));
        }
    }
}

/// Retranscription removes an event exactly when its type is `segment`: every
/// other event is in the new log as often as in the old one, and a segment is in
/// the new log as often as among the new segments.
pub proof fn law_only_segments_are_replaced(
    events: Seq<Json>,
    segments: Seq<NewSegment>,
    event: Json,
)
    ensures
        event.text_at("type"@) != Some("segment"@) ==> replaced(
            events,
            segments,
        ).to_multiset().count(event) == events.to_multiset().count(event),
        event.text_at("type"@) == Some("segment"@) ==> replaced(
            events,
            segments,
        ).to_multiset().count(event) == segment_events(
            segments,
            highest_id(without_segments(events)) + 1,
        ).to_multiset().count(event),
{
    broadcast use vstd::seq_lib::group_to_multiset_ensures;

    let kept = without_segments(events);
    let next_id = highest_id(kept) + 1;
    let new = segment_events(segments, next_id);
    law_other_events_survive(events, segments);
    lemma_kept_count(events, event);
    if event.text_at("type"@) != Some("segment"@) && new.contains(event) {
        let i = choose|i: int| 0 <= i < new.len() && new[i] == event;
        law_new_segments_hold_what_was_said(segments, next_id);
        assert(new[i].text_at("type"@) == Some("segment"@));
    }
}

/// What the user marked, noted and captured, and the start and the end of the
/// session, are in the log after retranscription as often as before.
pub proof fn law_retranscription_keeps_the_users_events(
    events: Seq<Json>,
    segments: Seq<NewSegment>,
    event: Event,
)
    requires
        !(event is Segment),
    ensures
        ({
            let logged = Json::Object(member_map(event.members()));
            replaced(events, segments).to_multiset().count(logged) == events.to_multiset().count(
                logged,
            )
        }),
{
    reveal_strlit("segment");
    reveal_strlit("session_start");
    reveal_strlit("session_end");
    reveal_strlit("marker");
    reveal_strlit("manual");
    reveal_strlit("screenshot");
    law_logged_event_keeps_its_time(event);
    assert(event.kind().len() != "segment"@.len());
    law_only_segments_are_replaced(
        events,
        segments,
        Json::Object(member_map(event.members())),
    );
}

/// Of the segments that the batch model recognised those that say something, and
/// no others, are logged, in their order and with consecutive numbers: what is
/// said without white space at its ends, and when, from where and as when it was
/// logged.
pub proof fn law_new_segments_hold_what_was_said(segments: Seq<NewSegment>, next_id: int)
    ensures
        ({
            let spoken = segments.filter(|s: NewSegment| text::has_letter(s.text@));
            let new = segment_events(segments, next_id);
            &&& new.len() == spoken.len()
            &&& forall|i: int|
                0 <= i < new.len() ==> {
                    &&& (#[trigger] new[i]).text_at("type"@) == Some("segment"@)
                    &&& new[i].natural_at("id"@) == Some((next_id + i) as u64)
                    &&& new[i].text_at("ts"@) == Some(spoken[i].ts@)
                    &&& new[i].text_at("src"@) == Some(spoken[i].src@)
                    &&& new[i].text_at("text"@) == Some(text::trimmed(spoken[i].text@))
                    &&& new[i].natural_at("start_ms"@) == Some(spoken[i].start_ms)
                    &&& new[i].natural_at("end_ms"@) == Some(spoken[i].end_ms)
                    &&& new[i].member("speaker"@) is None
                }
        }),
    decreases segments.len(),
{
    reveal(Seq::filter);
    let says = |s: NewSegment| text::has_letter(s.text@);
    let spoken = segments.filter(says);
    let new = segment_events(segments, next_id);
    if segments.len() > 0 {
        let fewer = segments.drop_last();
        let last = segments.last();
        law_new_segments_hold_what_was_said(fewer, next_id);
        text::law_trimming_cuts_white_space(last.text@);
        let earlier = segment_events(fewer, next_id);
        assert(earlier.len() == fewer.filter(says).len());
        if text::has_letter(last.text@) {
            lemma_segment_fields(last, next_id + earlier.len());
            assert(spoken =~= fewer.filter(says).push(last));
            assert forall|i: int| 0 <= i < new.len() implies {
                &&& (#[trigger] new[i]).text_at("type"@) == Some("segment"@)
                &&& new[i].natural_at("id"@) == Some((next_id + i) as u64)
                &&& new[i].text_at("ts"@) == Some(spoken[i].ts@)
                &&& new[i].text_at("src"@) == Some(spoken[i].src@)
                &&& new[i].text_at("text"@) == Some(text::trimmed(spoken[i].text@))
                &&& new[i].natural_at("start_ms"@) == Some(spoken[i].start_ms)
                &&& new[i].natural_at("end_ms"@) == Some(spoken[i].end_ms)
                &&& new[i].member("speaker"@) is None
            } by {
                if i < earlier.len() {
                    assert(new[i] == earlier[i]);
                    assert(spoken[i] == fewer.filter(says)[i]);
                }
            }
        } else {
            assert(spoken =~= fewer.filter(says));
        }
    }
}

proof fn lemma_segment_fields(segment: NewSegment, id: int)
    ensures
        ({
            let event = segment_event(segment, id);
            &&& event.text_at("type"@) == Some("segment"@)
            &&& event.natural_at("id"@) == Some(id as u64)
            &&& event.text_at("ts"@) == Some(segment.ts@)
            &&& event.text_at("src"@) == Some(segment.src@)
            &&& event.text_at("text"@) == Some(text::trimmed(segment.text@))
            &&& event.natural_at("start_ms"@) == Some(segment.start_ms)
            &&& event.natural_at("end_ms"@) == Some(segment.end_ms)
            &&& event.member("speaker"@) is None
        }),
{
    lemma_names_differ();
    lemma_more_names_differ();
}

proof fn lemma_more_names_differ()
    ensures
        "ts"@ != "src"@,
        "ts"@ != "text"@,
        "ts"@ != "end_ms"@,
        "ts"@ != "speaker"@,
        "ts"@ != "session_id"@,
        "ts"@ != "label"@,
        "ts"@ != "filename"@,
        "src"@ != "text"@,
        "src"@ != "end_ms"@,
        "src"@ != "speaker"@,
        "text"@ != "end_ms"@,
        "text"@ != "speaker"@,
        "end_ms"@ != "speaker"@,
{
    reveal_strlit("ts");
    reveal_strlit("src");
    reveal_strlit("text");
    reveal_strlit("end_ms");
    reveal_strlit("speaker");
    reveal_strlit("session_id");
    reveal_strlit("label");
    reveal_strlit("filename");
    assert("ts"@.len() == 2 && "src"@.len() == 3 && "text"@.len() == 4 && "end_ms"@.len() == 6);
    assert("speaker"@.len() == 7 && "session_id"@.len() == 10 && "label"@.len() == 5);
    assert("filename"@.len() == 8);
}

/// The log holds every field of an event under its own name.
pub proof fn law_log_holds_every_field(event: Event)
    ensures
        ({
            let logged = Json::Object(member_map(event.members()));
            match event {
                Event::SessionStart { id, ts, session_id } => {
                    &&& logged.text_at("type"@) == Some("session_start"@)
                    &&& logged.natural_at("id"@) == Some(id)
                    &&& logged.text_at("ts"@) == Some(ts@)
                    &&& logged.text_at("session_id"@) == Some(session_id@)
                },
                Event::Segment { id, ts, src, text, start_ms, end_ms, speaker } => {
                    &&& logged.text_at("type"@) == Some("segment"@)
                    &&& logged.natural_at("id"@) == Some(id)
                    &&& logged.text_at("ts"@) == Some(ts@)
                    &&& src == AudioSource::Mic ==> logged.text_at("src"@) == Some("mic"@)
                    &&& src == AudioSource::Sys ==> logged.text_at("src"@) == Some("sys"@)
                    &&& logged.text_at("text"@) == Some(text@)
                    &&& logged.natural_at("start_ms"@) == Some(start_ms)
                    &&& logged.natural_at("end_ms"@) == Some(end_ms)
                    &&& match speaker {
                        Some(name) => logged.text_at("speaker"@) == Some(name@),
                        None => logged.member("speaker"@) is None,
                    }
                },
                Event::Marker { id, ts, offset_ms, label } => {
                    &&& logged.text_at("type"@) == Some("marker"@)
                    &&& logged.natural_at("id"@) == Some(id)
                    &&& logged.text_at("ts"@) == Some(ts@)
                    &&& logged.natural_at("offset_ms"@) == Some(offset_ms)
                    &&& logged.text_at("label"@) == Some(label@)
                },
                Event::Manual { id, ts, offset_ms, text } => {
                    &&& logged.text_at("type"@) == Some("manual"@)
                    &&& logged.natural_at("id"@) == Some(id)
                    &&& logged.text_at("ts"@) == Some(ts@)
                    &&& logged.natural_at("offset_ms"@) == Some(offset_ms)
                    &&& logged.text_at("text"@) == Some(text@)
                },
                Event::SessionEnd { id, ts, duration_ms } => {
                    &&& logged.text_at("type"@) == Some("session_end"@)
                    &&& logged.natural_at("id"@) == Some(id)
                    &&& logged.text_at("ts"@) == Some(ts@)
                    &&& logged.natural_at("duration_ms"@) == Some(duration_ms)
                },
                Event::Screenshot { id, ts, offset_ms, filename } => {
                    &&& logged.text_at("type"@) == Some("screenshot"@)
                    &&& logged.natural_at("id"@) == Some(id)
                    &&& logged.text_at("ts"@) == Some(ts@)
                    &&& logged.natural_at("offset_ms"@) == Some(offset_ms)
                    &&& logged.text_at("filename"@) == Some(filename@)
                },
            }
        }),
{
    let members = event.members();
    lemma_names_differ();
    lemma_more_names_differ();
    lemma_member_found(members, 0);
    lemma_member_found(members, 1);
    lemma_member_found(members, 2);
    lemma_member_found(members, 3);
    match event {
        Event::Segment { speaker, .. } => {
            lemma_member_found(members, 4);
            lemma_member_found(members, 5);
            lemma_member_found(members, 6);
            if speaker is Some {
                lemma_member_found(members, 7);
            } else {
                lemma_member_missing(members, "speaker"@);
            }
        },
        Event::SessionStart { .. } => {},
        Event::SessionEnd { .. } => {},
        _ => {
            lemma_member_found(members, 4);
        },
    }
}

/// An event is ordered by its start if it has one, else by its offset, else by
/// its duration; one whose time is no natural number, or that has none, comes
/// first.
pub proof fn law_time_of_an_event(event: Json)
    ensures
        event.member("start_ms"@) matches Some(m) ==> time_of(event) == match m.as_natural() {
            Some(ms) => ms,
            None => 0,
        },
        event.member("start_ms"@) is None ==> (event.member("offset_ms"@) matches Some(m)
            ==> time_of(event) == match m.as_natural() {
            Some(ms) => ms,
            None => 0,
        }),
        event.member("start_ms"@) is None && event.member("offset_ms"@) is None ==> (event.member(
            "duration_ms"@,
        ) matches Some(m) ==> time_of(event) == match m.as_natural() {
            Some(ms) => ms,
            None => 0,
        }),
        event.member("start_ms"@) is None && event.member("offset_ms"@) is None && event.member(
            "duration_ms"@,
        ) is None ==> time_of(event) == 0,
{
}

/// The highest number is that of an event, unless none has one, and no event has
/// a higher one.
pub proof fn law_highest_number(events: Seq<Json>)
    ensures
        forall|i: int|
            0 <= i < events.len() ==> match (#[trigger] events[i]).natural_at("id"@) {
                Some(id) => id <= highest_id(events),
                None => true,
            },
        highest_id(events) == 0 || exists|i: int|
            0 <= i < events.len() && (#[trigger] events[i]).natural_at("id"@) == Some(
                highest_id(events),
            ),
    decreases events.len(),
{
    lemma_highest(events);
    if events.len() > 0 {
        let fewer = events.drop_last();
        law_highest_number(fewer);
        let last = events[events.len() - 1];
        if highest_id(events) != 0 && last.natural_at("id"@) != Some(highest_id(events)) {
            let i = choose|i: int|
                0 <= i < fewer.len() && (#[trigger] fewer[i]).natural_at("id"@) == Some(
                    highest_id(fewer),
                );
            assert(events[i].natural_at("id"@) == Some(highest_id(events)));
        }
    }
}

/// A sample belongs to a stretch of audio exactly when it comes in one of its
/// milliseconds, of which each has sixteen samples, and is there at all; it
/// belongs to the part within a source exactly when the source has it.
pub proof fn law_samples_of_a_stretch(
    start_ms: u64,
    end_ms: u64,
    muxed_len: nat,
    range: (usize, usize),
    source_len: nat,
    k: int,
)
    ensures
        (samples_of(start_ms, end_ms, muxed_len) matches Some((from, to)) && from <= k < to) <==> (
        16 * start_ms <= k < 16 * end_ms && k < muxed_len),
        samples_of(start_ms, end_ms, muxed_len) matches Some((from, to)) ==> from < to,
        range.0 <= range.1 ==> ((part_within(range, source_len) matches Some((from, to)) && from
            <= k < to) <==> (range.0 <= k < range.1 && k < source_len)),
        range.0 <= range.1 ==> (part_within(range, source_len) is Some <==> range.0 <= source_len),
{
}

/// Where there is one source alone, every segment comes from it; where there are
/// both, a segment without samples comes from nowhere, and any other from the
/// one that prevails.
pub proof fn law_origin_of_a_segment(has_samples: bool, mic_prevails: bool)
    ensures
        origin(true, false, has_samples, mic_prevails) == "local"@,
        origin(false, true, has_samples, mic_prevails) == "remote"@,
        origin(true, true, false, mic_prevails) == "unknown"@,
        origin(true, true, true, true) == "local"@,
        origin(true, true, true, false) == "remote"@,
{
}

/// After retranscription no event of the log is later than one that stands
/// behind it, by the time that the events hold.
pub proof fn law_events_stand_by_time(events: Seq<Json>, segments: Seq<NewSegment>, i: int, j: int)
    ensures
        0 <= i <= j < events.len() ==> time_of(by_time(events)[i]) <= time_of(by_time(events)[j]),
        0 <= i <= j < replaced(events, segments).len() ==> time_of(replaced(events, segments)[i])
            <= time_of(replaced(events, segments)[j]),
        at_time(events, time_of(events[i])) == events.filter(
            |event: Json| time_of(event) == time_of(events[i]),
        ),
{
    let kept = without_segments(events);
    law_log_is_by_time(events);
    law_log_is_by_time(kept + segment_events(segments, highest_id(kept) + 1));
}

/// What is kept are the events whose type is not `segment`, in their order. The
/// numbers suffice exactly when each new segment that says something can be
/// given one behind the highest that is kept, and the one behind those is a
/// number too.
pub proof fn law_numbers_suffice(events: Seq<Json>, segments: Seq<NewSegment>)
    ensures
        without_segments(events) == events.filter(
            |event: Json| event.text_at("type"@) != Some("segment"@),
        ),
        ids_suffice(events, segments) <==> highest_id(
            events.filter(|event: Json| event.text_at("type"@) != Some("segment"@)),
        ) + 1 + segments.filter(|s: NewSegment| text::has_letter(s.text@)).len() <= u64::MAX,
        replaced(events, segments).len() == events.filter(
            |event: Json| event.text_at("type"@) != Some("segment"@),
        ).len() + segments.filter(|s: NewSegment| text::has_letter(s.text@)).len(),
{
    let other = |event: Json| event.text_at("type"@) != Some("segment"@);
    lemma_same_filter(events);
    let kept = events.filter(other);
    law_new_segments_hold_what_was_said(segments, highest_id(kept) + 1);
    law_log_is_by_time(kept + segment_events(segments, highest_id(kept) + 1));
}

proof fn lemma_same_filter(events: Seq<Json>)
    ensures
        without_segments(events) == events.filter(
            |event: Json| event.text_at("type"@) != Some("segment"@),
        ),
    decreases events.len(),
{
    reveal(Seq::filter);
    if events.len() > 0 {
        lemma_same_filter(events.drop_last());
    }
}

} // verus!
