//! The transcript of a recording, made of the passages that the batch model
//! recognises.

use vstd::prelude::*;

use crate::text;

verus! {

/// The sample rate that the batch model requires.
pub const BATCH_RATE: u32 = 16000;

/// The most threads that the batch model is given.
pub const MAX_THREADS: usize = 8;

/// How many threads it is given where the machine does not say.
pub const FALLBACK_THREADS: usize = 4;

/// A passage of a recording. Times are in hundredths of a second.
#[derive(Debug, Clone)]
pub struct TranscriptSegment {
    /// When it starts.
    pub start: i64,
    /// When it ends.
    pub end: i64,
    /// What is said.
    pub text: String,
}

/// The transcript of a recording.
#[derive(Debug, Clone)]
pub struct TranscriptResult {
    /// Everything that is said.
    pub text: String,
    /// The passages.
    pub segments: Vec<TranscriptSegment>,
}

/// What a passage holds.
pub struct Passage {
    /// When it starts.
    pub start: i64,
    /// When it ends.
    pub end: i64,
    /// What is said.
    pub text: Seq<char>,
}

impl View for TranscriptSegment {
    type V = Passage;

    open spec fn view(&self) -> Passage {
        Passage { start: self.start, end: self.end, text: self.text@ }
    }
}

/// What passages hold.
pub open spec fn passages(segments: Seq<TranscriptSegment>) -> Seq<Passage> {
    segments.map_values(|s: TranscriptSegment| s@)
}

/// The passages that say something, without white space at their ends.
pub open spec fn spoken(raw: Seq<Passage>) -> Seq<Passage>
    decreases raw.len(),
{
    if raw.len() == 0 {
        Seq::empty()
    } else {
        let earlier = spoken(raw.drop_last());
        let said = text::trimmed(raw.last().text);
        if said.len() > 0 {
            earlier.push(Passage { text: said, ..raw.last() })
        } else {
            earlier
        }
    }
}

/// What passages say, with one space between neighbours.
pub open spec fn wording(said: Seq<Passage>) -> Seq<char> {
    text::joined(said.map_values(|p: Passage| p.text), " "@)
}

/// Every passage says something.
pub open spec fn all_speak(said: Seq<Passage>) -> bool {
    forall|i: int| 0 <= i < said.len() ==> (#[trigger] said[i]).text.len() > 0
}

/// Passages that are kept say something.
pub proof fn law_spoken_passages_speak(raw: Seq<Passage>)
    ensures
        all_speak(spoken(raw)),
        spoken(raw).len() <= raw.len(),
    decreases raw.len(),
{
    if raw.len() > 0 {
        law_spoken_passages_speak(raw.drop_last());
    }
}

proof fn lemma_wording_push(said: Seq<Passage>, p: Passage)
    ensures
        said.len() == 0 ==> wording(said.push(p)) == p.text,
        said.len() > 0 ==> wording(said.push(p)) == wording(said) + " "@ + p.text,
{
    let texts = said.map_values(|p: Passage| p.text);
    let more = said.push(p).map_values(|p: Passage| p.text);
    assert(more =~= texts.push(p.text));
    assert(more.drop_last() =~= texts);
}

proof fn lemma_wording_empty(said: Seq<Passage>)
    requires
        all_speak(said),
    ensures
        wording(said).len() == 0 <==> said.len() == 0,
{
    reveal_strlit(" ");
    if said.len() > 0 {
        let fewer = said.drop_last();
        assert(fewer.push(said.last()) =~= said);
        lemma_wording_push(fewer, said.last());
        assert(said[said.len() - 1].text.len() > 0);
    }
}

/// Makes the transcript of the passages that the model recognised, of which
/// those that say nothing are left out.
pub fn assemble(raw: &Vec<TranscriptSegment>) -> (result: TranscriptResult)
    ensures
        passages(result.segments@) == spoken(passages(raw@)),
        result.text@ == wording(spoken(passages(raw@))),
{
    let mut all_text = String::new();
    let mut segments: Vec<TranscriptSegment> = Vec::new();
    let ghost all = passages(raw@);
    assert(passages(segments@) =~= spoken(all.take(0)));
    assert(all_text@ =~= wording(spoken(all.take(0))));
    for i in 0..raw.len()
        invariant
            all == passages(raw@),
            passages(segments@) == spoken(all.take(i as int)),
            all_text@ == wording(spoken(all.take(i as int))),
    {
        let ghost before = spoken(all.take(i as int));
        proof {
            law_spoken_passages_speak(all.take(i as int));
            lemma_wording_empty(before);
            assert(all.take(i + 1).drop_last() =~= all.take(i as int));
            assert(all.take(i + 1).last() == raw@[i as int]@);
        }
        let trimmed = text::trim(raw[i].text.as_str());
        if !trimmed.as_str().is_empty() {
            if !all_text.as_str().is_empty() {
                all_text.push(' ');
            }
            all_text.append(trimmed.as_str());
            let segment = TranscriptSegment { start: raw[i].start, end: raw[i].end, text: trimmed };
            proof {
                reveal_strlit(" ");
                lemma_wording_push(before, segment@);
                assert(passages(segments@.push(segment)) =~= passages(segments@).push(segment@));
            }
            segments.push(segment);
            assert(all_text@ =~= wording(spoken(all.take(i + 1))));
        }
    }
    assert(all.take(raw@.len() as int) =~= all);
    TranscriptResult { text: all_text, segments }
}

/// Default thread count for the batch model: what the machine offers, within
/// bounds.
pub fn whisper_thread_count(available: Option<usize>) -> (n: usize)
    ensures
        ({
            let offered = match available {
                Some(m) => m,
                None => FALLBACK_THREADS,
            };
            n == if offered < MAX_THREADS {
                offered
            } else {
                MAX_THREADS
            }
        }),
{
    let offered: usize = match available {
        Some(m) => m,
        None => FALLBACK_THREADS,
    };
    if offered < MAX_THREADS {
        offered
    } else {
        MAX_THREADS
    }
}

/// Tells whether a file has the rate that the batch model requires; the message
/// to show if not.
pub fn check_sample_rate(sample_rate: u32) -> (checked: Result<(), String>)
    ensures
        match checked {
            Ok(()) => sample_rate == BATCH_RATE,
            Err(message) => sample_rate != BATCH_RATE && message@ == "Audio must be 16kHz (got "@
                + text::decimal(sample_rate as nat)
                + "Hz). Convert with: ffmpeg -i input.wav -ar 16000 output.wav"@,
        },
{
    if sample_rate == BATCH_RATE {
        Ok(())
    } else {
        let mut message = "Audio must be 16kHz (got ".to_owned();
        text::push_decimal(&mut message, sample_rate as u64);
        message.append("Hz). Convert with: ffmpeg -i input.wav -ar 16000 output.wav");
        Err(message)
    }
}

/// Of the passages that the model recognised those that say something, and no
/// others, are kept, in their order: with their times, and all that is said but
/// the white space at its ends. The transcript has every letter of the recording
/// once and in order.
pub proof fn law_no_passage_is_lost(raw: Seq<Passage>)
    ensures
        ({
            let kept = raw.filter(|p: Passage| text::has_letter(p.text));
            &&& spoken(raw).len() == kept.len()
            &&& forall|i: int|
                0 <= i < kept.len() ==> {
                    &&& (#[trigger] spoken(raw)[i]).start == kept[i].start
                    &&& spoken(raw)[i].end == kept[i].end
                    &&& spoken(raw)[i].text == text::trimmed(kept[i].text)
                }
        }),
        text::unspaced(wording(spoken(raw))) == text::letters_of(
            raw.map_values(|p: Passage| p.text),
        ),
{
    lemma_kept(raw);
    lemma_spoken_letters(raw);
    text::lemma_unspaced_empty();
    text::lemma_letters_of_joined(spoken(raw).map_values(|p: Passage| p.text), " "@);
}

proof fn lemma_kept(raw: Seq<Passage>)
    ensures
        ({
            let kept = raw.filter(|p: Passage| text::has_letter(p.text));
            &&& spoken(raw).len() == kept.len()
            &&& forall|i: int|
                0 <= i < kept.len() ==> {
                    &&& (#[trigger] spoken(raw)[i]).start == kept[i].start
                    &&& spoken(raw)[i].end == kept[i].end
                    &&& spoken(raw)[i].text == text::trimmed(kept[i].text)
                }
        }),
    decreases raw.len(),
{
    reveal(Seq::filter);
    if raw.len() > 0 {
        lemma_kept(raw.drop_last());
        text::law_trimming_cuts_white_space(raw.last().text);
    }
}

proof fn lemma_spoken_letters(raw: Seq<Passage>)
    ensures
        text::letters_of(spoken(raw).map_values(|p: Passage| p.text)) == text::letters_of(
            raw.map_values(|p: Passage| p.text),
        ),
    decreases raw.len(),
{
    let all = raw.map_values(|p: Passage| p.text);
    let said = spoken(raw).map_values(|p: Passage| p.text);
    if raw.len() == 0 {
        assert(all =~= Seq::empty());
        assert(said =~= Seq::empty());
    } else {
        let fewer = raw.drop_last();
        let last = raw.last().text;
        lemma_spoken_letters(fewer);
        text::law_trimming_cuts_white_space(last);
        let earlier = fewer.map_values(|p: Passage| p.text);
        let earlier_said = spoken(fewer).map_values(|p: Passage| p.text);
        assert(all =~= earlier.push(last));
        text::lemma_letters_of_push(earlier, last);
        if text::trimmed(last).len() > 0 {
            assert(said =~= earlier_said.push(text::trimmed(last)));
            text::lemma_letters_of_push(earlier_said, text::trimmed(last));
        } else {
            assert(text::trimmed(last) =~= Seq::empty());
            text::lemma_unspaced_empty();
            assert(text::letters_of(all) =~= text::letters_of(earlier));
        }
    }
}

/// Passages stand in the transcript one after the other, with one space between
/// neighbours and nothing else.
pub proof fn law_transcript_is_the_passages(some: Seq<Passage>, more: Seq<Passage>)
    ensures
        wording(Seq::empty()) == Seq::<char>::empty(),
        some.len() == 1 ==> wording(some) == some[0].text,
        some.len() > 0 && more.len() > 0 ==> wording(some + more) == wording(some) + " "@ + wording(
            more,
        ),
{
    let a = some.map_values(|p: Passage| p.text);
    let b = more.map_values(|p: Passage| p.text);
    assert((some + more).map_values(|p: Passage| p.text) =~= a + b);
    text::law_joining_keeps_the_parts(a, b, Seq::empty(), " "@);
    assert(Seq::<Passage>::empty().map_values(|p: Passage| p.text) =~= Seq::empty());
}

/// The batch model works at 16kHz, with at most eight threads, and with four
/// where nothing is known of the machine.
pub proof fn law_limits_of_the_batch_model()
    ensures
        BATCH_RATE == 16000,
        MAX_THREADS == 8,
        FALLBACK_THREADS == 4,
{
}

/// What is known of a passage is its times and its text.
pub proof fn law_passages_are_known(segment: TranscriptSegment, segments: Seq<TranscriptSegment>, i: int)
    ensures
        segment@.start == segment.start,
        segment@.end == segment.end,
        segment@.text == segment.text@,
        passages(segments).len() == segments.len(),
        0 <= i < segments.len() ==> passages(segments)[i] == segments[i]@,
{
}

} // verus!
