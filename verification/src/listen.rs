//! Listen mode: the words of one stream, shown phrase by phrase.

use std::time::Instant;
use vstd::prelude::*;

use crate::audio::{after_chunk, next_chunk, ChunkBuffer};
use crate::kyutai::CHUNK_SIZE;
use crate::phrase_buffer::{law_phrases_lose_no_word, Phrase, PhraseBuffer};
use crate::text;

verus! {

/// The samples that wait for the model and the words that wait to be shown.
pub struct Listener {
    samples: ChunkBuffer,
    phrase: PhraseBuffer,
}

/// What a listener holds.
#[verifier::ext_equal]
pub struct ListenerState {
    /// The samples that wait for the model.
    pub samples: Seq<u32>,
    /// The words that wait to be shown.
    pub phrase: Phrase,
}

/// The phrase after these words, which all came at one time.
pub open spec fn add_all(phrase: Phrase, words: Seq<Seq<char>>, now: Instant) -> Phrase
    decreases words.len(),
{
    if words.len() == 0 {
        phrase
    } else {
        add_all(phrase, words.drop_last(), now).add(words.last(), now)
    }
}

/// A phrase as it is shown, if it has text: with a space behind it.
pub open spec fn shown(phrase: Phrase) -> Option<Seq<char>> {
    match phrase.flushed() {
        Some((_, text)) => Some(text + " "@),
        None => None,
    }
}

impl View for Listener {
    type V = ListenerState;

    closed spec fn view(&self) -> ListenerState {
        ListenerState { samples: self.samples@, phrase: self.phrase@ }
    }
}

impl Listener {
    /// The words are kept with their times.
    pub open spec fn wf(self) -> bool {
        &&& self@.phrase.wf()
        &&& self.has_default_threshold()
    }

    /// Phrases are complete after the default silence.
    pub closed spec fn has_default_threshold(self) -> bool {
        self.phrase.has_default_threshold()
    }

    /// A listener that has heard nothing.
    pub fn new() -> (listener: Self)
        ensures
            listener.wf(),
            listener@ == (ListenerState { samples: Seq::empty(), phrase: Phrase::empty() }),
    {
        Listener { samples: ChunkBuffer::new(), phrase: PhraseBuffer::new() }
    }

    /// Takes in samples at the rate of the model.
    pub fn hear(&mut self, samples: &[u32])
        requires
            old(self).wf(),
        ensures
            final(self).wf(),
            final(self)@ == (ListenerState {
                samples: old(self)@.samples + samples@,
                ..old(self)@
            }),
    {
        self.samples.extend(samples);
    }

    /// The next complete chunk for the model.
    pub fn next_chunk(&mut self) -> (chunk: Option<Vec<u32>>)
        requires
            old(self).wf(),
        ensures
            final(self).wf(),
            final(self)@ == (ListenerState {
                samples: after_chunk(old(self)@.samples),
                ..old(self)@
            }),
            match chunk {
                Some(c) => old(self)@.samples.len() >= CHUNK_SIZE && c@ == next_chunk(
                    old(self)@.samples,
                ),
                None => old(self)@.samples.len() < CHUNK_SIZE,
            },
    {
        self.samples.take_chunk()
    }

    /// Takes in the words that the model recognised in a chunk.
    pub fn add_words(&mut self, words: &Vec<String>, now: Instant)
        requires
            old(self).wf(),
        ensures
            final(self).wf(),
            final(self)@ == (ListenerState {
                phrase: add_all(old(self)@.phrase, text::views(words@), now),
                ..old(self)@
            }),
    {
        let ghost before = self@;
        let ghost all = text::views(words@);
        for i in 0..words.len()
            invariant
                all == text::views(words@),
                self.wf(),
                self@ == (ListenerState {
                    phrase: add_all(before.phrase, all.take(i as int), now),
                    ..before
                }),
        {
            assert(all.take(i + 1).drop_last() =~= all.take(i as int));
            self.phrase.add_word(words[i].clone(), now);
        }
        assert(all.take(words@.len() as int) =~= all);
    }

    /// The phrase to show at `now`, if the silence after it has lasted long
    /// enough.
    pub fn due(&mut self, now: Instant) -> (out: Option<String>)
        requires
            old(self).wf(),
        ensures
            final(self).wf(),
            if old(self)@.phrase.complete_at(now) {
                &&& final(self)@ == (ListenerState { phrase: Phrase::empty(), ..old(self)@ })
                &&& match out {
                    Some(text) => shown(old(self)@.phrase) == Some(text@),
                    None => shown(old(self)@.phrase) is None,
                }
            } else {
                final(self)@ == old(self)@ && out is None
            },
    {
        if self.phrase.should_flush_at(now) {
            self.rest()
        } else {
            None
        }
    }

    /// The phrase to show at the end.
    pub fn rest(&mut self) -> (out: Option<String>)
        requires
            old(self).wf(),
        ensures
            final(self).wf(),
            final(self)@ == (ListenerState { phrase: Phrase::empty(), ..old(self)@ }),
            match out {
                Some(text) => shown(old(self)@.phrase) == Some(text@),
                None => shown(old(self)@.phrase) is None,
            },
    {
        match self.phrase.flush_simple() {
            Some(text) => {
                let mut out = text;
                out.append(" ");
                Some(out)
            },
            None => None,
        }
    }
}

/// Words that come together stand behind those that waited, in their order; the
/// silence counts from them on.
pub proof fn law_words_wait_in_order(phrase: Phrase, words: Seq<Seq<char>>, now: Instant)
    requires
        phrase.wf(),
    ensures
        add_all(phrase, words, now).wf(),
        add_all(phrase, words, now).words == phrase.words + words,
        words.len() == 0 ==> add_all(phrase, words, now) == phrase,
        words.len() > 0 ==> add_all(phrase, words, now).last == Some(now),
        phrase.words.len() > 0 ==> add_all(phrase, words, now).first == phrase.first,
    decreases words.len(),
{
    if words.len() > 0 {
        law_words_wait_in_order(phrase, words.drop_last(), now);
    }
    assert(add_all(phrase, words, now).words =~= phrase.words + words);
}

/// A phrase is shown exactly when one of its words says something, with every
/// letter of its words and a space behind it.
pub proof fn law_shown_phrases_lose_no_word(phrase: Phrase)
    requires
        phrase.wf(),
    ensures
        shown(phrase) is Some <==> exists|i: int|
            0 <= i < phrase.words.len() && text::has_letter(#[trigger] phrase.words[i]),
        shown(phrase) matches Some(out) ==> {
            &&& text::unspaced(out) == text::letters_of(phrase.words)
            &&& out.len() >= 2
            &&& out.last() == ' '
            &&& !text::is_white(out[out.len() - 2])
        },
{
    law_phrases_lose_no_word(phrase);
    if let Some((_, said)) = phrase.flushed() {
        text::lemma_unspaced_add(said, " "@);
        text::lemma_unspaced_empty();
        reveal_strlit(" ");
        assert(text::unspaced(said + " "@) =~= text::unspaced(said));
    }
}

} // verus!
