//! Accumulates streaming words into natural phrases. Words are buffered until
//! a silence gap is detected, then handed out together as one phrase.

use std::time::Instant;
use vstd::prelude::*;

use crate::clock::{millis64, millis64_since, millis_between, millis_since, nanos_at};
use crate::text;

verus! {

/// The silence after which a phrase is complete, in milliseconds.
pub const SILENCE_MS: u64 = 800;

/// Words that wait to be handed out as one phrase.
pub struct PhraseBuffer {
    words: Vec<String>,
    first_word_time: Option<Instant>,
    last_word_time: Option<Instant>,
    silence_threshold_ms: u64,
}

/// What a phrase buffer holds.
#[verifier::ext_equal]
pub struct Phrase {
    /// The words, in the order in which they came.
    pub words: Seq<Seq<char>>,
    /// When the first of them came.
    pub first: Option<Instant>,
    /// When the last of them came.
    pub last: Option<Instant>,
}

impl Phrase {
    /// The buffer without a word.
    pub open spec fn empty() -> Phrase {
        Phrase { words: Seq::empty(), first: None, last: None }
    }

    /// There is a time for the first and the last word exactly when there are
    /// words.
    pub open spec fn wf(self) -> bool {
        &&& self.words.len() > 0 <==> self.first is Some
        &&& self.words.len() > 0 <==> self.last is Some
    }

    /// The buffer after one more word.
    pub open spec fn add(self, word: Seq<char>, time: Instant) -> Phrase {
        Phrase {
            words: self.words.push(word),
            first: if self.first is Some {
                self.first
            } else {
                Some(time)
            },
            last: Some(time),
        }
    }

    /// The words joined by single spaces, without white space at either end.
    pub open spec fn text(self) -> Seq<char> {
        text::trimmed(text::joined(self.words, " "@))
    }

    /// What is handed out: the time of the first word and the text, unless the
    /// text is empty.
    pub open spec fn flushed(self) -> Option<(Instant, Seq<char>)> {
        if self.words.len() > 0 && self.text().len() > 0 {
            Some((self.first->0, self.text()))
        } else {
            None
        }
    }

    /// There are words, and at `now` the silence after the last of them has
    /// lasted long enough.
    pub open spec fn complete_at(self, now: Instant) -> bool {
        &&& self.words.len() > 0
        &&& self.last is Some
        &&& millis_between(now, self.last->0) >= SILENCE_MS
    }

    /// The milliseconds from the last word to `now`; the largest number when
    /// there is no word.
    pub open spec fn quiet_ms_at(self, now: Instant) -> u64 {
        match self.last {
            Some(last) => millis64(millis_between(now, last)),
            None => u64::MAX,
        }
    }
}

impl View for PhraseBuffer {
    type V = Phrase;

    closed spec fn view(&self) -> Phrase {
        Phrase {
            words: text::views(self.words@),
            first: self.first_word_time,
            last: self.last_word_time,
        }
    }
}

impl PhraseBuffer {
    /// The times fit the words, and the threshold is the default one.
    pub open spec fn wf(self) -> bool {
        &&& self@.wf()
        &&& self.has_default_threshold()
    }

    /// The threshold is the default one.
    pub closed spec fn has_default_threshold(self) -> bool {
        self.silence_threshold_ms == SILENCE_MS
    }

    /// A buffer without words.
    pub fn new() -> (buf: Self)
        ensures
            buf.wf(),
            buf@ == Phrase::empty(),
    {
        let buf = PhraseBuffer {
            words: Vec::new(),
            first_word_time: None,
            last_word_time: None,
            silence_threshold_ms: SILENCE_MS,
        };
        assert(buf@ =~= Phrase::empty());
        buf
    }

    /// Adds a word that came at `time`.
    pub fn add_word(&mut self, word: String, time: Instant)
        requires
            old(self).wf(),
        ensures
            final(self).wf(),
            final(self)@ == old(self)@.add(word@, time),
    {
        if self.first_word_time.is_none() {
            self.first_word_time = Some(time);
        }
        self.last_word_time = Some(time);
        self.words.push(word);
        assert(self@ =~= old(self)@.add(word@, time));
    }

    /// Tells whether at `now` the silence gap has been exceeded.
    pub fn should_flush_at(&self, now: Instant) -> (due: bool)
        requires
            self.wf(),
        ensures
            due == self@.complete_at(now),
    {
        if let Some(last) = self.last_word_time {
            !self.words.is_empty() && millis_since(now, last) >= self.silence_threshold_ms as u128
        } else {
            false
        }
    }

    /// Tells whether the silence gap has been exceeded, by the clock.
    pub fn should_flush(&self) -> (due: bool)
        requires
            self.wf(),
        ensures
            exists|now: Instant| due == #[trigger] self@.complete_at(now),
    {
        let now = Instant::now();
        self.should_flush_at(now)
    }

    /// How long since the last word was added until `now`, in milliseconds.
    pub fn quiet_for_ms_at(&self, now: Instant) -> (ms: u64)
        requires
            self.wf(),
        ensures
            ms == self@.quiet_ms_at(now),
    {
        match self.last_word_time {
            Some(last) => millis64_since(now, last),
            None => u64::MAX,
        }
    }

    /// How long since the last word was added, in milliseconds by the clock.
    pub fn quiet_for_ms(&self) -> (ms: u64)
        requires
            self.wf(),
        ensures
            exists|now: Instant| ms == #[trigger] self@.quiet_ms_at(now),
    {
        let now = Instant::now();
        self.quiet_for_ms_at(now)
    }

    /// Tells whether there are no words.
    pub fn is_empty(&self) -> (empty: bool)
        ensures
            empty == (self@.words.len() == 0),
    {
        self.words.is_empty()
    }

    /// Hands out the phrase, with the time of its first word, and empties the
    /// buffer. `None` when there is no text.
    pub fn flush(&mut self) -> (phrase: Option<(Instant, String)>)
        requires
            old(self).wf(),
        ensures
            final(self).wf(),
            final(self)@ == Phrase::empty(),
            match phrase {
                Some((time, text)) => old(self)@.flushed() == Some((time, text@)),
                None => old(self)@.flushed() is None,
            },
    {
        if self.words.is_empty() {
            assert(self@ =~= Phrase::empty());
            return None;
        }
        let joined = text::join(&self.words, " ");
        let time = self.first_word_time.take().unwrap();
        self.words.clear();
        self.last_word_time = None;
        assert(self@ =~= Phrase::empty());

        let trimmed = text::trim(joined.as_str());
        if trimmed.as_str().is_empty() {
            None
        } else {
            Some((time, trimmed))
        }
    }

    /// Hands out the text of the phrase and empties the buffer.
    pub fn flush_simple(&mut self) -> (phrase: Option<String>)
        requires
            old(self).wf(),
        ensures
            final(self).wf(),
            final(self)@ == Phrase::empty(),
            match phrase {
                Some(text) => old(self)@.flushed() matches Some((_, t)) && t == text@,
                None => old(self)@.flushed() is None,
            },
    {
        match self.flush() {
            Some((_, text)) => Some(text),
            None => None,
        }
    }
}

/// Nothing comes out of a buffer from which a phrase was just handed out, nor
/// is it ever due.
pub proof fn law_nothing_is_handed_out_twice(now: Instant)
    ensures
        Phrase::empty().wf(),
        Phrase::empty().flushed() is None,
        !Phrase::empty().complete_at(now),
{
}

/// Every word is blank.
pub open spec fn all_blank(words: Seq<Seq<char>>) -> bool {
    forall|i: int, j: int|
        0 <= i < words.len() && 0 <= j < words[i].len() ==> text::is_white(#[trigger] words[i][j])
}

/// Words of white space alone make no phrase.
pub proof fn law_blank_words_make_no_phrase(phrase: Phrase)
    requires
        phrase.wf(),
        all_blank(phrase.words),
    ensures
        phrase.flushed() is None,
{
    lemma_joined_blank(phrase.words);
    text::lemma_trimmed_blank(text::joined(phrase.words, " "@));
}

proof fn lemma_joined_blank(words: Seq<Seq<char>>)
    requires
        all_blank(words),
    ensures
        forall|i: int|
            0 <= i < text::joined(words, " "@).len() ==> text::is_white(
                #[trigger] text::joined(words, " "@)[i],
            ),
    decreases words.len(),
{
    reveal_strlit(" ");
    if words.len() > 1 {
        let fewer = words.drop_last();
        assert forall|i: int, j: int|
            0 <= i < fewer.len() && 0 <= j < fewer[i].len() implies text::is_white(
            #[trigger] fewer[i][j],
        ) by {
            assert(text::is_white(words[i][j]));
        }
        lemma_joined_blank(fewer);
        assert forall|i: int| 0 <= i < text::joined(words, " "@).len() implies text::is_white(
            #[trigger] text::joined(words, " "@)[i],
        ) by {
            let start = text::joined(fewer, " "@);
            if i < start.len() {
                assert(text::joined(words, " "@)[i] == start[i]);
            } else if i > start.len() {
                assert(text::joined(words, " "@)[i] == words[words.len() - 1][i - start.len() - 1]);
            }
        }
    } else if words.len() == 1 {
        assert forall|i: int| 0 <= i < text::joined(words, " "@).len() implies text::is_white(
            #[trigger] text::joined(words, " "@)[i],
        ) by {
            assert(text::is_white(words[0][i]));
        }
    }
}

/// A further word leaves the time of the first and stands behind the words
/// before it, with one space between; each word sets the silence back.
pub proof fn law_words_come_out_in_order(phrase: Phrase, word: Seq<char>, time: Instant)
    requires
        phrase.wf(),
    ensures
        phrase.add(word, time).wf(),
        phrase.words.len() > 0 ==> phrase.add(word, time).first == phrase.first,
        phrase.words.len() > 0 ==> text::joined(phrase.add(word, time).words, " "@)
            == text::joined(phrase.words, " "@) + " "@ + word,
        phrase.words.len() == 0 ==> phrase.add(word, time).first == Some(time),
        phrase.words.len() == 0 ==> text::joined(phrase.add(word, time).words, " "@) == word,
        !phrase.add(word, time).complete_at(time),
{
    assert(phrase.words.push(word).drop_last() =~= phrase.words);
}

/// A phrase is handed out exactly when one of its words says something. It comes
/// with the time of its first word, and has every letter of its words once and
/// in order. Words without white space at their ends stand in it as they came,
/// with one space between neighbours.
pub proof fn law_phrases_lose_no_word(phrase: Phrase)
    requires
        phrase.wf(),
    ensures
        phrase.flushed() is Some <==> exists|i: int|
            0 <= i < phrase.words.len() && text::has_letter(#[trigger] phrase.words[i]),
        phrase.flushed() matches Some((time, said)) ==> {
            &&& phrase.first == Some(time)
            &&& text::unspaced(said) == text::letters_of(phrase.words)
            &&& said == text::trimmed(said)
            &&& !text::is_white(said[0]) && !text::is_white(said.last())
            &&& phrase.words[0].len() > 0 && !text::is_white(phrase.words[0][0])
                && phrase.words.last().len() > 0 && !text::is_white(phrase.words.last().last())
                ==> said == text::joined(phrase.words, " "@)
        },
{
    let whole = text::joined(phrase.words, " "@);
    text::lemma_unspaced_empty();
    text::lemma_letters_of_joined(phrase.words, " "@);
    text::law_trimming_cuts_white_space(whole);
    if phrase.flushed() is Some {
        if forall|i: int|
            0 <= i < phrase.words.len() ==> !text::has_letter(#[trigger] phrase.words[i]) {
            assert forall|i: int, j: int|
                0 <= i < phrase.words.len() && 0 <= j < phrase.words[i].len() implies text::is_white(
                #[trigger] phrase.words[i][j],
            ) by {
                assert(!text::has_letter(phrase.words[i]));
            }
            law_blank_words_make_no_phrase(phrase);
        }
        let said = text::trimmed(whole);
        text::law_trimming_cuts_white_space(said);
        lemma_trimmed_stays(said);
        if phrase.words[0].len() > 0 && !text::is_white(phrase.words[0][0])
            && phrase.words.last().len() > 0 && !text::is_white(phrase.words.last().last()) {
            lemma_joined_ends(phrase.words);
            lemma_trimmed_stays(whole);
        }
    }
    if exists|i: int| 0 <= i < phrase.words.len() && text::has_letter(#[trigger] phrase.words[i]) {
        let i = choose|i: int|
            0 <= i < phrase.words.len() && text::has_letter(#[trigger] phrase.words[i]);
        let word = phrase.words[i];
        let k = choose|k: int| 0 <= k < word.len() && !text::is_white(#[trigger] word[k]);
        text::lemma_joined_has_part(phrase.words, " "@, i);
        let from = choose|from: int| text::has_part_at(whole, word, from);
        assert(whole.subrange(from, from + word.len())[k] == word[k]);
        assert(!text::is_white(whole[from + k]));
    }
}

/// Text that neither begins nor ends with white space is not trimmed.
proof fn lemma_trimmed_stays(s: Seq<char>)
    requires
        s.len() > 0,
        !text::is_white(s[0]),
        !text::is_white(s.last()),
    ensures
        text::trimmed(s) == s,
{
}

/// Joined words begin as the first and end as the last of them.
proof fn lemma_joined_ends(words: Seq<Seq<char>>)
    requires
        words.len() > 0,
        words[0].len() > 0,
        words.last().len() > 0,
    ensures
        text::joined(words, " "@).len() > 0,
        text::joined(words, " "@)[0] == words[0][0],
        text::joined(words, " "@).last() == words.last().last(),
{
    let whole = text::joined(words, " "@);
    if words.len() > 1 {
        lemma_joined_start(words.drop_last());
    }
}

proof fn lemma_joined_start(words: Seq<Seq<char>>)
    requires
        words.len() > 0,
        words[0].len() > 0,
    ensures
        text::joined(words, " "@).len() > 0,
        text::joined(words, " "@)[0] == words[0][0],
    decreases words.len(),
{
    if words.len() > 1 {
        lemma_joined_start(words.drop_last());
    }
}

/// A phrase is complete once 800 milliseconds have passed since its last word,
/// and not before. How long it has been quiet is counted from that word on, and
/// without one it has been quiet forever.
pub proof fn law_silence_completes_a_phrase(phrase: Phrase, now: Instant)
    requires
        phrase.wf(),
    ensures
        phrase.words.len() == 0 ==> !phrase.complete_at(now) && phrase.quiet_ms_at(now) == u64::MAX,
        phrase.words.len() > 0 ==> (phrase.complete_at(now) <==> nanos_at(now) >= nanos_at(
            phrase.last->0,
        ) + 800_000_000),
        phrase.words.len() > 0 && nanos_at(now) >= nanos_at(phrase.last->0) && nanos_at(now)
            - nanos_at(phrase.last->0) <= 1_000_000 * u64::MAX ==> phrase.quiet_ms_at(now) == (
        nanos_at(now) - nanos_at(phrase.last->0)) / 1_000_000,
{
}

/// A word is added behind the others and is the last from then on; the first
/// keeps its time.
pub proof fn law_words_are_added_behind(phrase: Phrase, word: Seq<char>, time: Instant)
    requires
        phrase.wf(),
    ensures
        phrase.add(word, time).words == phrase.words.push(word),
        phrase.add(word, time).last == Some(time),
        phrase.add(word, time).first == (if phrase.words.len() > 0 {
            phrase.first
        } else {
            Some(time)
        }),
{
}

} // verus!
