//! Phrase buffer for accumulating words into sentences, by session time.

use std::time::{Duration, Instant};
use vstd::prelude::*;

use crate::clock::{millis_between, millis_since, nanos_at};
use crate::text;

verus! {

/// Accumulates words until a pause is detected, then flushes as a complete
/// phrase.
pub struct PhraseBuffer {
    words: Vec<String>,
    start_time: Option<Duration>,
    last_word_time: Instant,
}

/// What a phrase buffer holds.
#[verifier::ext_equal]
pub struct TimedPhrase {
    /// The words, in the order in which they came.
    pub words: Seq<Seq<char>>,
    /// The session time of the first of them.
    pub start: Option<Duration>,
    /// When the buffer last got a word, or was made.
    pub last: Instant,
}

impl TimedPhrase {
    /// The buffer without a word, made at `now`.
    pub open spec fn empty(now: Instant) -> TimedPhrase {
        TimedPhrase { words: Seq::empty(), start: None, last: now }
    }

    /// There is a start exactly when there are words.
    pub open spec fn wf(self) -> bool {
        self.words.len() > 0 <==> self.start is Some
    }

    /// The buffer after one more word at session time `elapsed`.
    pub open spec fn add(self, word: Seq<char>, elapsed: Duration, now: Instant) -> TimedPhrase {
        TimedPhrase {
            words: self.words.push(word),
            start: if self.start is Some {
                self.start
            } else {
                Some(elapsed)
            },
            last: now,
        }
    }

    /// The words joined by single spaces.
    pub open spec fn text(self) -> Seq<char> {
        text::joined(self.words, " "@)
    }

    /// The buffer after its words were handed out.
    pub open spec fn flushed(self) -> TimedPhrase {
        TimedPhrase { words: Seq::empty(), start: None, last: self.last }
    }

    /// There are words, and at `now` the pause is longer than the threshold.
    pub open spec fn paused_at(self, pause_threshold_ms: u128, now: Instant) -> bool {
        self.words.len() > 0 && millis_between(now, self.last) > pause_threshold_ms
    }

    /// The milliseconds from the last word to `now`.
    pub open spec fn quiet_ms_at(self, now: Instant) -> nat {
        millis_between(now, self.last)
    }
}

impl View for PhraseBuffer {
    type V = TimedPhrase;

    closed spec fn view(&self) -> TimedPhrase {
        TimedPhrase {
            words: text::views(self.words@),
            start: self.start_time,
            last: self.last_word_time,
        }
    }
}

impl PhraseBuffer {
    /// A buffer without words, made at `now`.
    pub fn new_at(now: Instant) -> (buf: Self)
        ensures
            buf@ == TimedPhrase::empty(now),
    {
        let buf = PhraseBuffer { words: Vec::new(), start_time: None, last_word_time: now };
        assert(buf@ =~= TimedPhrase::empty(now));
        buf
    }

    /// A buffer without words.
    pub fn new() -> (buf: Self)
        ensures
            exists|now: Instant| buf@ == #[trigger] TimedPhrase::empty(now),
    {
        let now = Instant::now();
        Self::new_at(now)
    }

    /// Adds a word at session time `elapsed`, by a clock that stands at `now`.
    pub fn add_word_at(&mut self, word: String, elapsed: Duration, now: Instant)
        ensures
            final(self)@ == old(self)@.add(word@, elapsed, now),
    {
        if self.start_time.is_none() {
            self.start_time = Some(elapsed);
        }
        self.words.push(word);
        self.last_word_time = now;
        assert(self@ =~= old(self)@.add(word@, elapsed, now));
    }

    /// Adds a word at session time `elapsed`.
    pub fn add_word(&mut self, word: String, elapsed: Duration)
        ensures
            exists|now: Instant| final(self)@ == #[trigger] old(self)@.add(word@, elapsed, now),
    {
        let now = Instant::now();
        self.add_word_at(word, elapsed, now);
    }

    /// Tells whether at `now` a pause is detected.
    pub fn should_flush_at(&self, pause_threshold_ms: u128, now: Instant) -> (due: bool)
        ensures
            due == self@.paused_at(pause_threshold_ms, now),
    {
        !self.words.is_empty() && millis_since(now, self.last_word_time) > pause_threshold_ms
    }

    /// Tells whether a pause is detected, by the clock.
    pub fn should_flush(&self, pause_threshold_ms: u128) -> (due: bool)
        ensures
            exists|now: Instant| due == #[trigger] self@.paused_at(pause_threshold_ms, now),
    {
        let now = Instant::now();
        self.should_flush_at(pause_threshold_ms, now)
    }

    /// How long the buffer has been quiet until `now`, in milliseconds.
    pub fn quiet_for_ms_at(&self, now: Instant) -> (ms: u128)
        ensures
            ms == self@.quiet_ms_at(now),
    {
        millis_since(now, self.last_word_time)
    }

    /// How long the buffer has been quiet, in milliseconds by the clock.
    pub fn quiet_for_ms(&self) -> (ms: u128)
        ensures
            exists|now: Instant| ms == #[trigger] self@.quiet_ms_at(now),
    {
        let now = Instant::now();
        self.quiet_for_ms_at(now)
    }

    /// Tells whether there are no words.
    pub fn is_empty(&self) -> (empty: bool)
        ensures
            empty == (self@.words.len() == 0),
    {
        self.words.is_empty()
    }

    /// Hands out the start, the given end and the text of the phrase, and
    /// empties the buffer. `None` when there are no words.
    pub fn flush(&mut self, current_elapsed: Duration) -> (phrase: Option<
        (Duration, Duration, String),
    >)
        requires
            old(self)@.wf(),
        ensures
            final(self)@ == old(self)@.flushed(),
            match phrase {
                Some((start, end, text)) => {
                    &&& old(self)@.start == Some(start)
                    &&& end == current_elapsed
                    &&& text@ == old(self)@.text()
                },
                None => old(self)@.words.len() == 0,
            },
    {
        match self.flush_simple() {
            Some((start, text)) => Some((start, current_elapsed, text)),
            None => None,
        }
    }

    /// Hands out the start and the text of the phrase, and empties the buffer.
    /// `None` when there are no words.
    pub fn flush_simple(&mut self) -> (phrase: Option<(Duration, String)>)
        requires
            old(self)@.wf(),
        ensures
            final(self)@ == old(self)@.flushed(),
            match phrase {
                Some((start, text)) => old(self)@.start == Some(start) && text@ == old(
                    self,
                )@.text(),
                None => old(self)@.words.len() == 0,
            },
    {
        if self.words.is_empty() {
            assert(self@ =~= old(self)@.flushed());
            return None;
        }
        let text = text::join(&self.words, " ");
        let start = self.start_time.take().unwrap();
        self.words.clear();
        assert(self@ =~= old(self)@.flushed());
        Some((start, text))
    }
}

impl Default for PhraseBuffer {
    fn default() -> (buf: Self)
        ensures
            exists|now: Instant| buf@ == #[trigger] TimedPhrase::empty(now),
    {
        Self::new()
    }
}

/// What is added to a phrase keeps its start, and comes out behind what it held
/// before, with one space between.
pub proof fn law_words_come_out_in_order(
    phrase: TimedPhrase,
    word: Seq<char>,
    elapsed: Duration,
    now: Instant,
)
    requires
        phrase.wf(),
        phrase.words.len() > 0,
    ensures
        phrase.add(word, elapsed, now).wf(),
        phrase.add(word, elapsed, now).start == phrase.start,
        phrase.add(word, elapsed, now).text() == phrase.text() + " "@ + word,
{
    assert(phrase.words.push(word).drop_last() =~= phrase.words);
}

/// A phrase has every letter of its words once and in order; its first word is
/// its text and gives its start.
pub proof fn law_phrases_lose_no_word(
    phrase: TimedPhrase,
    word: Seq<char>,
    elapsed: Duration,
    now: Instant,
)
    requires
        phrase.wf(),
    ensures
        text::unspaced(phrase.text()) == text::letters_of(phrase.words),
        phrase.add(word, elapsed, now).words == phrase.words.push(word),
        phrase.add(word, elapsed, now).last == now,
        phrase.words.len() == 0 ==> phrase.add(word, elapsed, now).start == Some(elapsed),
        phrase.words.len() == 0 ==> phrase.add(word, elapsed, now).text() == word,
        phrase.flushed().words.len() == 0,
        phrase.flushed().wf(),
        phrase.flushed().last == phrase.last,
{
    text::lemma_unspaced_empty();
    text::lemma_letters_of_joined(phrase.words, " "@);
}

/// A pause is detected when there are words and more whole milliseconds have
/// passed since the last one than the threshold.
pub proof fn law_pause_is_longer_than_the_threshold(
    phrase: TimedPhrase,
    threshold_ms: u128,
    now: Instant,
)
    ensures
        phrase.words.len() == 0 ==> !phrase.paused_at(threshold_ms, now),
        phrase.words.len() > 0 ==> (phrase.paused_at(threshold_ms, now) <==> nanos_at(now)
            >= nanos_at(phrase.last) + 1_000_000 * (threshold_ms + 1)),
        nanos_at(now) >= nanos_at(phrase.last) ==> phrase.quiet_ms_at(now) == (nanos_at(now)
            - nanos_at(phrase.last)) / 1_000_000,
{
}

} // verus!
