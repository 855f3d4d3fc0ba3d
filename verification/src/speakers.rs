//! Who speaks when, and how the labels of the speakers are put on a transcript.
//! Moments are integers that stand in the same order as the times of the
//! recording.

use serde_json::Value;
use vstd::prelude::*;

use crate::event_log::{
    all_flat, contents, is_line, is_value_log, log_text, logged, read_events_jsonl, write_events_jsonl,
};
use crate::json;
use crate::json::{json, written, Json};
use crate::text;

verus! {

/// A stretch of a recording in which one speaker speaks.
#[derive(Debug, Clone, Copy)]
pub struct SpeakerSpan {
    /// When it starts.
    pub start: i64,
    /// When it ends; this moment is no longer part of it.
    pub end: i64,
    /// Who speaks.
    pub speaker: i32,
}

impl SpeakerSpan {
    /// The moment is part of the stretch.
    pub open spec fn covers(self, moment: i64) -> bool {
        self.start <= moment < self.end
    }
}

/// Who speaks at a moment: the speaker of the first stretch that covers it.
pub open spec fn speaker_at(spans: Seq<SpeakerSpan>, moment: i64) -> Option<i32>
    decreases spans.len(),
{
    if spans.len() == 0 {
        None
    } else if spans[0].covers(moment) {
        Some(spans[0].speaker)
    } else {
        speaker_at(spans.drop_first(), moment)
    }
}

/// The label of a speaker: its number with at least two digits.
pub open spec fn label_text(speaker: i32) -> Seq<char> {
    if speaker >= 0 {
        "speaker_"@ + text::padded(speaker as nat, 2)
    } else {
        "speaker_-"@ + text::decimal((-speaker) as nat)
    }
}

/// When a transcribed segment starts and ends, in milliseconds; `None` for any
/// other event, and for a segment that does not say.
pub open spec fn span_of(event: Json) -> Option<(u64, u64)> {
    if event.text_at("type"@) == Some("segment"@) {
        match (event.natural_at("start_ms"@), event.natural_at("end_ms"@)) {
            (Some(start), Some(end)) => Some((start, end)),
            _ => None,
        }
    } else {
        None
    }
}

/// An event with the label of whoever speaks in its middle. An event that is no
/// segment, or in whose middle nobody speaks, stays as it is.
pub open spec fn labelled(event: Json, middle: Option<i64>, spans: Seq<SpeakerSpan>) -> Json {
    if span_of(event) is Some && middle is Some && speaker_at(spans, middle->0) is Some {
        Json::Object(
            event->Object_0.insert(
                "speaker"@,
                Json::Text(label_text(speaker_at(spans, middle->0)->0)),
            ),
        )
    } else {
        event
    }
}

/// Who speaks at a moment.
pub fn find_speaker(spans: &Vec<SpeakerSpan>, moment: i64) -> (speaker: Option<i32>)
    ensures
        speaker == speaker_at(spans@, moment),
{
    assert(spans@.skip(0) =~= spans@);
    for i in 0..spans.len()
        invariant
            speaker_at(spans@, moment) == speaker_at(spans@.skip(i as int), moment),
    {
        assert(spans@.skip(i as int).drop_first() =~= spans@.skip(i + 1));
        if spans[i].start <= moment && moment < spans[i].end {
            return Some(spans[i].speaker);
        }
    }
    None
}

/// The label of a speaker.
pub fn speaker_label(speaker: i32) -> (label: String)
    ensures
        label@ == label_text(speaker),
{
    if speaker >= 0 {
        let mut label = "speaker_".to_owned();
        text::push_padded(&mut label, speaker as u64, 2);
        label
    } else {
        let mut label = "speaker_-".to_owned();
        text::push_decimal(&mut label, (-(speaker as i64)) as u64);
        label
    }
}

/// When a transcribed segment starts and ends, in milliseconds.
pub fn segment_span(event: &Value) -> (span: Option<(u64, u64)>)
    ensures
        span == span_of(json(*event)),
{
    if !json::text_is(event, "type", "segment") {
        return None;
    }
    match (json::natural_at(event, "start_ms"), json::natural_at(event, "end_ms")) {
        (Some(start), Some(end)) => Some((start, end)),
        _ => None,
    }
}

/// Puts the labels of the speakers on the segments of a transcript. `middles`
/// holds the middle of each event that has one.
pub fn label_speakers(events: &mut Vec<Value>, middles: &Vec<Option<i64>>, spans: &Vec<SpeakerSpan>)
    requires
        middles@.len() == old(events)@.len(),
    ensures
        contents(final(events)@) == Seq::new(
            old(events)@.len(),
            |i: int| labelled(json(old(events)@[i]), middles@[i], spans@),
        ),
{
    let ghost before = events@;
    for i in 0..middles.len()
        invariant
            events@.len() == before.len(),
            middles@.len() == before.len(),
            forall|j: int|
                0 <= j < i ==> json(#[trigger] events@[j]) == labelled(
                    json(before[j]),
                    middles@[j],
                    spans@,
                ),
            forall|j: int| i <= j < before.len() ==> #[trigger] events@[j] == before[j],
    {
        if segment_span(&events[i]).is_some() {
            if let Some(middle) = middles[i] {
                if let Some(speaker) = find_speaker(spans, middle) {
                    let label = json::text_value(speaker_label(speaker));
                    json::set(&mut events[i], "speaker", label);
                }
            }
        }
    }
    assert(contents(events@) =~= Seq::new(
        before.len(),
        |i: int| labelled(json(before[i]), middles@[i], spans@),
    ));
}

/// The stretches of the segments of a log, event by event.
pub fn log_spans(log: &str) -> (spans: Vec<Option<(u64, u64)>>)
    ensures
        spans@ == logged(text::lines_of(log@)).map_values(|event: Json| span_of(event)),
{
    let events = read_events_jsonl(log);
    let mut spans: Vec<Option<(u64, u64)>> = Vec::new();
    let ghost all = contents(events@).map_values(|event: Json| span_of(event));
    for i in 0..events.len()
        invariant
            all == contents(events@).map_values(|event: Json| span_of(event)),
            spans@ == all.take(i as int),
    {
        assert(contents(events@)[i as int] == json(events@[i as int]));
        spans.push(segment_span(&events[i]));
        assert(spans@ =~= all.take(i + 1));
    }
    assert(all.take(events@.len() as int) =~= all);
    spans
}

/// A log with the labels of the speakers.
pub open spec fn labelled_events(
    events: Seq<Json>,
    middles: Seq<Option<i64>>,
    spans: Seq<SpeakerSpan>,
) -> Seq<Json> {
    Seq::new(
        events.len(),
        |i: int|
            labelled(
                events[i],
                if i < middles.len() {
                    middles[i]
                } else {
                    None
                },
                spans,
            ),
    )
}

/// Puts the labels of the speakers on the segments in the text of a log.
/// `middles` holds the middle of each event that has one; events beyond its end
/// have none. The new text is read back as it was meant.
pub fn labelled_log(log: &str, middles: &Vec<Option<i64>>, spans: &Vec<SpeakerSpan>) -> (new_log:
    String)
    ensures
        ({
            let events = logged(text::lines_of(log@));
            let new = labelled_events(events, middles@, spans@);
            &&& new_log@ == log_text(new)
            &&& all_flat(events) ==> is_value_log(new)
        }),
{
    let mut events = read_events_jsonl(log);
    let ghost held = contents(events@);
    let ghost new = labelled_events(held, middles@, spans@);
    let mut all_middles: Vec<Option<i64>> = Vec::new();
    for i in 0..events.len()
        invariant
            all_middles@.len() == i,
            forall|j: int|
                0 <= j < i ==> #[trigger] all_middles@[j] == if j < middles@.len() {
                    middles@[j]
                } else {
                    None
                },
    {
        all_middles.push(
            if i < middles.len() {
                middles[i]
            } else {
                None
            },
        );
    }
    label_speakers(&mut events, &all_middles, spans);
    assert(contents(events@) =~= new);
    let content = write_events_jsonl(&events);
    proof {
        if all_flat(held) {
            assert forall|i: int| 0 <= i < new.len() implies (#[trigger] new[i]).is_flat()
                && is_line(written(new[i])) by {
                assert(held[i].is_flat());
                law_labels_keep_flat(
                    held[i],
                    if i < middles@.len() {
                        middles@[i]
                    } else {
                        None
                    },
                    spans@,
                );
                assert(new[i] == json(events@[i]));
            }
        }
    }
    content
}

/// How many different speakers there are.
pub fn count_speakers(spans: &Vec<SpeakerSpan>) -> (n: usize)
    ensures
        n == spans@.map_values(|s: SpeakerSpan| s.speaker).to_set().len(),
{
    let ghost all = spans@.map_values(|s: SpeakerSpan| s.speaker);
    let mut seen: Vec<i32> = Vec::new();
    for i in 0..spans.len()
        invariant
            all == spans@.map_values(|s: SpeakerSpan| s.speaker),
            seen@.no_duplicates(),
            forall|x: i32| seen@.contains(x) <==> all.take(i as int).contains(x),
    {
        let speaker: i32 = spans[i].speaker;
        let ghost old_seen = seen@;
        let mut known = false;
        for j in 0..seen.len()
            invariant
                known == seen@.take(j as int).contains(speaker),
        {
            assert(seen@.take(j + 1) =~= seen@.take(j as int).push(seen@[j as int]));
            if seen[j] == speaker {
                known = true;
                assert(seen@.take(j + 1)[j as int] == speaker);
            }
            proof {
                lemma_push_contains(seen@.take(j as int), seen@[j as int]);
            }
        }
        assert(seen@.take(seen@.len() as int) =~= seen@);
        proof {
            assert(all.take(i + 1) =~= all.take(i as int).push(speaker));
            lemma_push_contains(all.take(i as int), speaker);
            lemma_push_contains(old_seen, speaker);
        }
        if !known {
            seen.push(speaker);
        }
    }
    proof {
        assert(all.take(spans@.len() as int) =~= all);
        assert(seen@.to_set() =~= all.to_set());
        seen@.unique_seq_to_set();
    }
    seen.len()
}

/// What a sequence holds after one more item.
proof fn lemma_push_contains(s: Seq<i32>, x: i32)
    ensures
        forall|y: i32| #[trigger] s.push(x).contains(y) <==> s.contains(y) || y == x,
{
    assert forall|y: i32| #[trigger] s.push(x).contains(y) <==> s.contains(y) || y == x by {
        if s.contains(y) {
            let k = choose|k: int| 0 <= k < s.len() && s[k] == y;
            assert(s.push(x)[k] == y);
        }
        if y == x {
            assert(s.push(x)[s.len() as int] == y);
        }
    }
}

/// How much of the work is done, in percent, rounded towards zero; nothing
/// while it is unknown how much there is.
pub fn percent_done(done: i32, total: i32) -> (percent: i32)
    requires
        total > 0 ==> i32::MIN <= 100 * done <= i32::MAX,
    ensures
        percent == if total <= 0 {
            0
        } else if done >= 0 {
            100 * done / (total as int)
        } else {
            -((-100 * done) / (total as int))
        },
{
    if total <= 0 {
        return 0;
    }
    let scaled: i64 = 100 * (done as i64);
    let total: i64 = total as i64;
    let percent: i64 = if scaled >= 0 {
        scaled / total
    } else {
        -((-scaled) / total)
    };
    assert(i32::MIN <= percent <= i32::MAX) by (nonlinear_arith)
        requires
            total >= 1,
            i32::MIN <= scaled <= i32::MAX,
            scaled >= 0 ==> percent == scaled / total,
            scaled < 0 ==> percent == -((-scaled) / (total as int)),
    ;
    percent as i32
}

/// Tells whether a transcript is shown with its speakers: they are asked for, and
/// there are passages to label.
pub fn wants_speakers(diarize: bool, passages: usize) -> (b: bool)
    ensures
        b == (diarize && passages > 0),
{
    diarize && passages > 0
}

/// A passage of a recording as it is shown.
#[derive(Debug)]
pub struct SpokenLine {
    /// When it starts, as it is shown.
    pub stamp: String,
    /// Its middle.
    pub middle: i64,
    /// What is said.
    pub text: String,
}

/// The line that shows a passage.
pub open spec fn line_text(line: SpokenLine, spans: Seq<SpeakerSpan>) -> Seq<char> {
    match speaker_at(spans, line.middle) {
        Some(speaker) => "["@ + line.stamp@ + "] ["@ + label_text(speaker) + "] "@ + line.text@,
        None => "["@ + line.stamp@ + "] "@ + line.text@,
    }
}

/// Aligns the text of a recording with its speakers, one line per passage.
pub fn speaker_lines(lines: &Vec<SpokenLine>, spans: &Vec<SpeakerSpan>) -> (output: String)
    ensures
        output@ == text::line_block(lines@.map_values(|l: SpokenLine| line_text(l, spans@))),
{
    let ghost all = lines@.map_values(|l: SpokenLine| line_text(l, spans@));
    let mut output = String::new();
    for i in 0..lines.len()
        invariant
            all == lines@.map_values(|l: SpokenLine| line_text(l, spans@)),
            output@ == text::line_block(all.take(i as int)),
    {
        let line = &lines[i];
        let ghost before = output@;
        output.append("[");
        output.append(line.stamp.as_str());
        output.append("] ");
        if let Some(speaker) = find_speaker(spans, line.middle) {
            output.append("[");
            output.append(speaker_label(speaker).as_str());
            output.append("] ");
        }
        output.append(line.text.as_str());
        output.append("\n");
        proof {
            reveal_strlit("[");
            reveal_strlit("] ");
            reveal_strlit("] [");
            assert("] ["@ =~= "] "@ + "["@);
            assert(output@ =~= before + line_text(*line, spans@) + "\n"@);
            assert(all.take(i + 1) =~= all.take(i as int).push(all[i as int]));
            text::lemma_line_block_push(all.take(i as int), all[i as int]);
        }
    }
    assert(all.take(lines@.len() as int) =~= all);
    output
}

/// Labelling changes nothing of an event but its speaker.
pub proof fn law_labels_change_only_the_speaker(
    event: Json,
    middle: Option<i64>,
    spans: Seq<SpeakerSpan>,
    key: Seq<char>,
)
    requires
        key != "speaker"@,
    ensures
        labelled(event, middle, spans).member(key) == event.member(key),
        span_of(event) is None ==> labelled(event, middle, spans) == event,
{
}

/// A label makes no event that could not be read back.
pub proof fn law_labels_keep_flat(event: Json, middle: Option<i64>, spans: Seq<SpeakerSpan>)
    requires
        event.is_flat(),
    ensures
        labelled(event, middle, spans).is_flat(),
{
}

/// Whoever speaks in the middle of a segment is named on it; where stretches
/// overlap, the earlier one in the list counts.
pub proof fn law_first_stretch_counts(spans: Seq<SpeakerSpan>, moment: i64, i: int)
    requires
        0 <= i < spans.len(),
        spans[i].covers(moment),
        forall|j: int| 0 <= j < i ==> !(#[trigger] spans[j]).covers(moment),
    ensures
        speaker_at(spans, moment) == Some(spans[i].speaker),
    decreases i,
{
    if i > 0 {
        assert(!spans[0].covers(moment));
        law_first_stretch_counts(spans.drop_first(), moment, i - 1);
    }
}

/// Whoever is said to speak at a moment speaks then: a stretch of that speaker
/// holds the moment, and no stretch before it in the list does. Nobody is said to
/// speak at a moment that no stretch holds.
pub proof fn law_nobody_else_speaks(spans: Seq<SpeakerSpan>, moment: i64)
    ensures
        match speaker_at(spans, moment) {
            Some(speaker) => exists|i: int|
                {
                    &&& 0 <= i < spans.len()
                    &&& (#[trigger] spans[i]).speaker == speaker
                    &&& spans[i].start <= moment < spans[i].end
                    &&& forall|j: int|
                        0 <= j < i ==> !((#[trigger] spans[j]).start <= moment < spans[j].end)
                },
            None => forall|i: int|
                0 <= i < spans.len() ==> !((#[trigger] spans[i]).start <= moment < spans[i].end),
        },
    decreases spans.len(),
{
    if spans.len() > 0 && !(spans[0].start <= moment < spans[0].end) {
        let rest = spans.drop_first();
        law_nobody_else_speaks(rest, moment);
        match speaker_at(rest, moment) {
            Some(speaker) => {
                let i = choose|i: int|
                    {
                        &&& 0 <= i < rest.len()
                        &&& (#[trigger] rest[i]).speaker == speaker
                        &&& rest[i].start <= moment < rest[i].end
                        &&& forall|j: int|
                            0 <= j < i ==> !((#[trigger] rest[j]).start <= moment < rest[j].end)
                    };
                assert(spans[i + 1].speaker == speaker);
                assert forall|j: int| 0 <= j < i + 1 implies !((#[trigger] spans[j]).start
                    <= moment < spans[j].end) by {
                    if j > 0 {
                        assert(rest[j - 1] == spans[j]);
                    }
                }
            },
            None => {
                assert forall|j: int| 0 <= j < spans.len() implies !((#[trigger] spans[j]).start
                    <= moment < spans[j].end) by {
                    if j > 0 {
                        assert(rest[j - 1] == spans[j]);
                    }
                }
            },
        }
    }
}

/// A label is the word for a speaker and the number, with at least two digits
/// where it is not negative; different speakers have different labels.
pub proof fn law_labels_tell_speakers_apart(speaker: i32, other: i32)
    ensures
        speaker >= 10 ==> label_text(speaker) == "speaker_"@ + text::decimal(speaker as nat),
        0 <= speaker < 10 ==> label_text(speaker) == "speaker_0"@ + text::decimal(speaker as nat),
        speaker < 0 ==> label_text(speaker) == "speaker_-"@ + text::decimal((-speaker) as nat),
        label_text(speaker) == label_text(other) ==> speaker == other,
{
    lemma_label(speaker);
    lemma_label(other);
    if label_text(speaker) == label_text(other) {
        let a = label_text(speaker);
        reveal_strlit("speaker_");
        reveal_strlit("speaker_-");
        reveal_strlit("speaker_0");
        let na = if speaker >= 0 {
            speaker as nat
        } else {
            (-speaker) as nat
        };
        let nb = if other >= 0 {
            other as nat
        } else {
            (-other) as nat
        };
        let start = |s: int|
            if s >= 10 {
                8int
            } else {
                9int
            };
        assert(a.skip(start(speaker as int)) =~= text::decimal(na));
        assert(label_text(other).skip(start(other as int)) =~= text::decimal(nb));
        lemma_first_digit(na);
        lemma_first_digit(nb);
        assert(a[8] == (if speaker >= 10 {
            text::decimal(na)[0]
        } else if speaker >= 0 {
            '0'
        } else {
            '-'
        }));
        assert(a[8] == (if other >= 10 {
            text::decimal(nb)[0]
        } else if other >= 0 {
            '0'
        } else {
            '-'
        }));
        text::law_numbers_are_told_apart(na, nb);
    }
}

/// A number does not begin with a zero unless it is less than ten, nor with
/// anything but a digit.
proof fn lemma_first_digit(n: nat)
    ensures
        text::decimal(n).len() > 0,
        '0' <= text::decimal(n)[0] <= '9',
        n >= 1 ==> text::decimal(n)[0] != '0',
    decreases n,
{
    if n < 10 {
        assert((48 + n) as char as u32 == 48 + n);
    } else {
        lemma_first_digit(n / 10);
        assert(text::decimal(n)[0] == text::decimal(n / 10)[0]);
    }
}

proof fn lemma_label(speaker: i32)
    ensures
        speaker >= 10 ==> label_text(speaker) == "speaker_"@ + text::decimal(speaker as nat),
        0 <= speaker < 10 ==> label_text(speaker) == "speaker_0"@ + text::decimal(speaker as nat),
        speaker < 0 ==> label_text(speaker) == "speaker_-"@ + text::decimal((-speaker) as nat),
{
    reveal_strlit("speaker_");
    reveal_strlit("speaker_0");
    if speaker >= 0 {
        let n = speaker as nat;
        if n < 10 {
            assert(text::decimal(n).len() == 1);
            assert(text::padded(n, 2) =~= seq!['0'] + text::decimal(n));
            assert("speaker_"@ + text::padded(n, 2) =~= "speaker_0"@ + text::decimal(n));
        } else {
            lemma_first_digit(n / 10);
            assert(text::decimal(n).len() >= 2);
        }
    }
}

/// A segment that says when it is gets the label of the first stretch that holds
/// its middle, and nothing else of it changes. Every other event, and a segment
/// in whose middle nobody speaks, stays as it is.
pub proof fn law_segments_are_labelled_by_their_middle(
    event: Json,
    middle: Option<i64>,
    spans: Seq<SpeakerSpan>,
    i: int,
)
    ensures
        event.text_at("type"@) != Some("segment"@) ==> labelled(event, middle, spans) == event,
        event.natural_at("start_ms"@) is None || event.natural_at("end_ms"@) is None ==> labelled(
            event,
            middle,
            spans,
        ) == event,
        middle is None ==> labelled(event, middle, spans) == event,
        middle matches Some(m) ==> ((forall|j: int|
            0 <= j < spans.len() ==> !((#[trigger] spans[j]).start <= m < spans[j].end))
            ==> labelled(event, middle, spans) == event),
        middle matches Some(m) ==> ({
            &&& event.text_at("type"@) == Some("segment"@)
            &&& event.natural_at("start_ms"@) is Some
            &&& event.natural_at("end_ms"@) is Some
            &&& 0 <= i < spans.len()
            &&& spans[i].start <= m < spans[i].end
            &&& forall|j: int| 0 <= j < i ==> !((#[trigger] spans[j]).start <= m < spans[j].end)
        } ==> labelled(event, middle, spans) == Json::Object(
            event->Object_0.insert("speaker"@, Json::Text(label_text(spans[i].speaker))),
        )),
{
    if let Some(m) = middle {
        law_nobody_else_speaks(spans, m);
        if 0 <= i < spans.len() && spans[i].start <= m < spans[i].end && (forall|j: int|
            0 <= j < i ==> !((#[trigger] spans[j]).start <= m < spans[j].end)) {
            assert forall|j: int| 0 <= j < i implies !(#[trigger] spans[j]).covers(m) by {
                assert(!(spans[j].start <= m < spans[j].end));
            }
            law_first_stretch_counts(spans, m, i);
        }
    }
}

/// The times of a segment are those that it holds; no other event has any.
pub proof fn law_times_of_a_segment(event: Json)
    ensures
        span_of(event) matches Some((start, end)) ==> {
            &&& event.text_at("type"@) == Some("segment"@)
            &&& event.natural_at("start_ms"@) == Some(start)
            &&& event.natural_at("end_ms"@) == Some(end)
        },
        event.text_at("type"@) == Some("segment"@) && event.natural_at("start_ms"@) is Some
            && event.natural_at("end_ms"@) is Some ==> span_of(event) is Some,
{
}

/// Labelling a log keeps its events, each in its place, and labels each by its
/// own middle.
pub proof fn law_labelling_keeps_the_log(
    events: Seq<Json>,
    middles: Seq<Option<i64>>,
    spans: Seq<SpeakerSpan>,
    i: int,
)
    requires
        0 <= i < events.len(),
    ensures
        labelled_events(events, middles, spans).len() == events.len(),
        i < middles.len() ==> labelled_events(events, middles, spans)[i] == labelled(
            events[i],
            middles[i],
            spans,
        ),
        i >= middles.len() ==> labelled_events(events, middles, spans)[i] == events[i],
{
}

/// The line of a passage is when it starts, who speaks in its middle, if anybody
/// does, and all that is said.
pub proof fn law_lines_show_what_is_said(line: SpokenLine, spans: Seq<SpeakerSpan>, i: int)
    ensures
        (forall|j: int|
            0 <= j < spans.len() ==> !((#[trigger] spans[j]).start <= line.middle
                < spans[j].end)) ==> line_text(line, spans) == "["@ + line.stamp@ + "] "@
            + line.text@,
        ({
            &&& 0 <= i < spans.len()
            &&& spans[i].start <= line.middle < spans[i].end
            &&& forall|j: int|
                0 <= j < i ==> !((#[trigger] spans[j]).start <= line.middle < spans[j].end)
        }) ==> line_text(line, spans) == "["@ + line.stamp@ + "] ["@ + label_text(
            spans[i].speaker,
        ) + "] "@ + line.text@,
{
    law_nobody_else_speaks(spans, line.middle);
    if 0 <= i < spans.len() && spans[i].start <= line.middle < spans[i].end && (forall|j: int|
        0 <= j < i ==> !((#[trigger] spans[j]).start <= line.middle < spans[j].end)) {
        assert forall|j: int| 0 <= j < i implies !(#[trigger] spans[j]).covers(line.middle) by {
            assert(!(spans[j].start <= line.middle < spans[j].end));
        }
        law_first_stretch_counts(spans, line.middle, i);
    }
}

} // verus!
