//! Collecting the audio of a meeting and turning the words of its two streams
//! into utterances.

use std::time::Instant;
use vstd::prelude::*;

use crate::audio::{after_chunk, next_chunk, ChunkBuffer, RecordedAudio};
use crate::clock::{millis64, millis64_since, millis_between};
use crate::events::AudioSource;
use crate::kyutai::CHUNK_SIZE;
use crate::phrase_buffer::{law_phrases_lose_no_word, Phrase, PhraseBuffer};
use crate::text;

verus! {

/// The silence of one source, in milliseconds, after which a word of the other
/// ends its turn.
pub const TURN_MS: u64 = 300;

/// Something that was said.
#[derive(Debug)]
pub struct Utterance {
    /// Where it came from.
    pub source: AudioSource,
    /// What was said.
    pub text: String,
    /// When it starts, in milliseconds of the session.
    pub start_ms: u64,
    /// When it ends, in milliseconds of the session.
    pub end_ms: u64,
}

/// What an utterance holds.
pub struct Said {
    /// Where it came from.
    pub source: AudioSource,
    /// What was said.
    pub text: Seq<char>,
    /// When it starts.
    pub start_ms: u64,
    /// When it ends.
    pub end_ms: u64,
}

impl View for Utterance {
    type V = Said;

    open spec fn view(&self) -> Said {
        Said {
            source: self.source,
            text: self.text@,
            start_ms: self.start_ms,
            end_ms: self.end_ms,
        }
    }
}

/// What an optional utterance holds.
pub open spec fn said(utterance: Option<Utterance>) -> Option<Said> {
    match utterance {
        Some(u) => Some(u@),
        None => None,
    }
}

/// What is made of a phrase that is handed out `elapsed_ms` into the session: it
/// starts with its first word, but not after it ends.
pub open spec fn utterance_of(
    phrase: Phrase,
    source: AudioSource,
    session_start: Instant,
    elapsed_ms: u64,
) -> Option<Said> {
    match phrase.flushed() {
        Some((first, text)) => {
            let start = millis64(millis_between(first, session_start));
            Some(
                Said {
                    source,
                    text,
                    start_ms: if start < elapsed_ms {
                        start
                    } else {
                        elapsed_ms
                    },
                    end_ms: elapsed_ms,
                },
            )
        },
        None => None,
    }
}

/// What is done next with the audio that came in.
#[derive(Debug, Clone, Copy, PartialEq, Eq, Structural)]
pub enum Round {
    /// It is taken in.
    Collect,
    /// It is discarded.
    Discard,
    /// Collecting ends.
    Stop,
}

/// What is done next: collecting ends once the meeting does not run any more,
/// and audio that comes in while it is paused is discarded.
pub fn next_round(running: bool, paused: bool) -> (round: Round)
    ensures
        round == if !running {
            Round::Stop
        } else if paused {
            Round::Discard
        } else {
            Round::Collect
        },
{
    if !running {
        Round::Stop
    } else if paused {
        Round::Discard
    } else {
        Round::Collect
    }
}

/// Both streams of a meeting.
pub struct Collector {
    session_start: Instant,
    mic_chunks: ChunkBuffer,
    sys_chunks: ChunkBuffer,
    mic_phrase: PhraseBuffer,
    sys_phrase: PhraseBuffer,
    recorded: RecordedAudio,
}

/// What a collector holds.
#[verifier::ext_equal]
pub struct Streams {
    /// When the session started.
    pub session_start: Instant,
    /// The samples of the microphone that wait for the model.
    pub mic_samples: Seq<u32>,
    /// The samples of the system audio that wait for the model.
    pub sys_samples: Seq<u32>,
    /// The words of the microphone that wait.
    pub mic_phrase: Phrase,
    /// The words of the system audio that wait.
    pub sys_phrase: Phrase,
    /// What the microphone recorded.
    pub mic_recorded: Seq<u32>,
    /// What the system audio recorded.
    pub sys_recorded: Seq<u32>,
}

impl Streams {
    /// Nothing heard yet.
    pub open spec fn empty(session_start: Instant) -> Streams {
        Streams {
            session_start,
            mic_samples: Seq::empty(),
            sys_samples: Seq::empty(),
            mic_phrase: Phrase::empty(),
            sys_phrase: Phrase::empty(),
            mic_recorded: Seq::empty(),
            sys_recorded: Seq::empty(),
        }
    }

    /// The words of both sources are kept with their times.
    pub open spec fn wf(self) -> bool {
        self.mic_phrase.wf() && self.sys_phrase.wf()
    }

    /// The words of a source that wait.
    pub open spec fn phrase(self, source: AudioSource) -> Phrase {
        match source {
            AudioSource::Mic => self.mic_phrase,
            AudioSource::Sys => self.sys_phrase,
        }
    }

    /// With these words of a source.
    pub open spec fn with_phrase(self, source: AudioSource, phrase: Phrase) -> Streams {
        match source {
            AudioSource::Mic => Streams { mic_phrase: phrase, ..self },
            AudioSource::Sys => Streams { sys_phrase: phrase, ..self },
        }
    }

    /// At `checked` the source has said something and has been silent long
    /// enough for the other to take its turn.
    pub open spec fn turn_is_over(self, source: AudioSource, checked: Instant) -> bool {
        self.phrase(source).words.len() > 0 && self.phrase(source).quiet_ms_at(checked) > TURN_MS
    }

    /// What is handed out of a source `elapsed_ms` into the session.
    pub open spec fn handed_out(self, source: AudioSource, elapsed_ms: u64) -> Option<Said> {
        utterance_of(self.phrase(source), source, self.session_start, elapsed_ms)
    }

    /// After a word of one source: the other one's turn may end first.
    pub open spec fn after_word(
        self,
        source: AudioSource,
        word: Seq<char>,
        now: Instant,
        checked: Instant,
    ) -> Streams {
        let other = other_source(source);
        let turned = if self.turn_is_over(other, checked) {
            self.with_phrase(other, Phrase::empty())
        } else {
            self
        };
        turned.with_phrase(source, turned.phrase(source).add(word, now))
    }
}

/// The other source.
pub open spec fn other_source(source: AudioSource) -> AudioSource {
    match source {
        AudioSource::Mic => AudioSource::Sys,
        AudioSource::Sys => AudioSource::Mic,
    }
}

/// The source of a stream of the model; there are two.
pub open spec fn source_of(batch_idx: usize) -> Option<AudioSource> {
    if batch_idx == 0 {
        Some(AudioSource::Mic)
    } else if batch_idx == 1 {
        Some(AudioSource::Sys)
    } else {
        None
    }
}

impl View for Collector {
    type V = Streams;

    closed spec fn view(&self) -> Streams {
        Streams {
            session_start: self.session_start,
            mic_samples: self.mic_chunks@,
            sys_samples: self.sys_chunks@,
            mic_phrase: self.mic_phrase@,
            sys_phrase: self.sys_phrase@,
            mic_recorded: self.recorded.mic_samples@,
            sys_recorded: self.recorded.sys_samples@,
        }
    }
}

/// Appends samples.
fn append_samples(to: &mut Vec<u32>, samples: &[u32])
    ensures
        final(to)@ == old(to)@ + samples@,
{
    let ghost before = to@;
    for i in 0..samples.len()
        invariant
            to@ == before + samples@.take(i as int),
    {
        to.push(samples[i]);
    }
    assert(samples@.take(samples@.len() as int) =~= samples@);
}

impl Collector {
    /// The words are kept with their times.
    pub open spec fn wf(self) -> bool {
        &&& self@.wf()
        &&& self.has_default_thresholds()
    }

    /// Phrases are complete after the default silence.
    pub closed spec fn has_default_thresholds(self) -> bool {
        self.mic_phrase.has_default_threshold() && self.sys_phrase.has_default_threshold()
    }

    /// A collector for a session that starts at `session_start`.
    pub fn new(session_start: Instant) -> (collector: Self)
        ensures
            collector.wf(),
            collector@ == Streams::empty(session_start),
    {
        let collector = Collector {
            session_start,
            mic_chunks: ChunkBuffer::new(),
            sys_chunks: ChunkBuffer::new(),
            mic_phrase: PhraseBuffer::new(),
            sys_phrase: PhraseBuffer::new(),
            recorded: RecordedAudio::default(),
        };
        assert(collector@ =~= Streams::empty(session_start));
        collector
    }

    /// Keeps samples for the time after the meeting.
    pub fn record(&mut self, source: AudioSource, samples: &[u32])
        requires
            old(self).wf(),
        ensures
            final(self).wf(),
            final(self)@ == match source {
                AudioSource::Mic => Streams {
                    mic_recorded: old(self)@.mic_recorded + samples@,
                    ..old(self)@
                },
                AudioSource::Sys => Streams {
                    sys_recorded: old(self)@.sys_recorded + samples@,
                    ..old(self)@
                },
            },
    {
        match source {
            AudioSource::Mic => append_samples(&mut self.recorded.mic_samples, samples),
            AudioSource::Sys => append_samples(&mut self.recorded.sys_samples, samples),
        }
    }

    /// Takes in samples for the model.
    pub fn hear(&mut self, source: AudioSource, samples: &[u32])
        requires
            old(self).wf(),
        ensures
            final(self).wf(),
            final(self)@ == match source {
                AudioSource::Mic => Streams {
                    mic_samples: old(self)@.mic_samples + samples@,
                    ..old(self)@
                },
                AudioSource::Sys => Streams {
                    sys_samples: old(self)@.sys_samples + samples@,
                    ..old(self)@
                },
            },
    {
        match source {
            AudioSource::Mic => self.mic_chunks.extend(samples),
            AudioSource::Sys => self.sys_chunks.extend(samples),
        }
    }

    /// The next chunks for the model, microphone first. When one source has not
    /// enough samples, silence stands in, so that the other keeps being
    /// transcribed.
    pub fn next_batch(&mut self) -> (batch: Option<Vec<Vec<u32>>>)
        requires
            old(self).wf(),
        ensures
            final(self).wf(),
            match batch {
                Some(chunks) => {
                    &&& old(self)@.mic_samples.len() >= CHUNK_SIZE
                        || old(self)@.sys_samples.len() >= CHUNK_SIZE
                    &&& chunks@.len() == 2
                    &&& chunks@[0]@ == next_chunk(old(self)@.mic_samples)
                    &&& chunks@[1]@ == next_chunk(old(self)@.sys_samples)
                },
                None => {
                    &&& old(self)@.mic_samples.len() < CHUNK_SIZE
                    &&& old(self)@.sys_samples.len() < CHUNK_SIZE
                },
            },
            final(self)@ == (Streams {
                mic_samples: after_chunk(old(self)@.mic_samples),
                sys_samples: after_chunk(old(self)@.sys_samples),
                ..old(self)@
            }),
    {
        if !self.mic_chunks.has_chunk() && !self.sys_chunks.has_chunk() {
            assert(self@ =~= old(self)@);
            return None;
        }
        let mic = self.mic_chunks.take_or_silence();
        let sys = self.sys_chunks.take_or_silence();
        let mut chunks: Vec<Vec<u32>> = Vec::new();
        chunks.push(mic);
        chunks.push(sys);
        Some(chunks)
    }

    /// Hands out what waits of a source.
    pub fn hand_out(&mut self, source: AudioSource, elapsed_ms: u64) -> (utterance: Option<
        Utterance,
    >)
        requires
            old(self).wf(),
        ensures
            final(self).wf(),
            final(self)@ == old(self)@.with_phrase(source, Phrase::empty()),
            said(utterance) == old(self)@.handed_out(source, elapsed_ms),
    {
        let flushed = match source {
            AudioSource::Mic => self.mic_phrase.flush(),
            AudioSource::Sys => self.sys_phrase.flush(),
        };
        match flushed {
            Some((first, text)) => {
                let start: u64 = millis64_since(first, self.session_start);
                let start_ms: u64 = if start < elapsed_ms {
                    start
                } else {
                    elapsed_ms
                };
                Some(Utterance { source, text, start_ms, end_ms: elapsed_ms })
            },
            None => None,
        }
    }

    /// Takes in a word that a stream of the model recognised at `now`. If at
    /// `checked` the other source has been silent long enough, its utterance is
    /// handed out first. Words of other streams are passed over.
    pub fn add_word(
        &mut self,
        batch_idx: usize,
        word: String,
        now: Instant,
        checked: Instant,
        elapsed_ms: u64,
    ) -> (utterance: Option<Utterance>)
        requires
            old(self).wf(),
        ensures
            final(self).wf(),
            match source_of(batch_idx) {
                Some(source) => {
                    &&& final(self)@ == old(self)@.after_word(source, word@, now, checked)
                    &&& said(utterance) == if old(self)@.turn_is_over(
                        other_source(source),
                        checked,
                    ) {
                        old(self)@.handed_out(other_source(source), elapsed_ms)
                    } else {
                        None
                    }
                },
                None => final(self)@ == old(self)@ && utterance is None,
            },
    {
        if batch_idx == 0 {
            let utterance = if !self.sys_phrase.is_empty() && self.sys_phrase.quiet_for_ms_at(
                checked,
            ) > TURN_MS {
                self.hand_out(AudioSource::Sys, elapsed_ms)
            } else {
                None
            };
            self.mic_phrase.add_word(word, now);
            utterance
        } else if batch_idx == 1 {
            let utterance = if !self.mic_phrase.is_empty() && self.mic_phrase.quiet_for_ms_at(
                checked,
            ) > TURN_MS {
                self.hand_out(AudioSource::Mic, elapsed_ms)
            } else {
                None
            };
            self.sys_phrase.add_word(word, now);
            utterance
        } else {
            None
        }
    }

    /// Hands out what waits of a source if at `checked` the silence after it has
    /// lasted long enough.
    pub fn hand_out_due(&mut self, source: AudioSource, checked: Instant, elapsed_ms: u64) -> (
    utterance: Option<Utterance>)
        requires
            old(self).wf(),
        ensures
            final(self).wf(),
            if old(self)@.phrase(source).complete_at(checked) {
                &&& final(self)@ == old(self)@.with_phrase(source, Phrase::empty())
                &&& said(utterance) == old(self)@.handed_out(source, elapsed_ms)
            } else {
                final(self)@ == old(self)@ && utterance is None
            },
    {
        let due = match source {
            AudioSource::Mic => self.mic_phrase.should_flush_at(checked),
            AudioSource::Sys => self.sys_phrase.should_flush_at(checked),
        };
        if due {
            self.hand_out(source, elapsed_ms)
        } else {
            None
        }
    }

    /// What was recorded.
    pub fn finish(self) -> (audio: RecordedAudio)
        ensures
            audio.mic_samples@ == self@.mic_recorded,
            audio.sys_samples@ == self@.sys_recorded,
    {
        self.recorded
    }
}

/// An utterance does not start after it ends, and says something.
pub proof fn law_utterances_run_forward(
    phrase: Phrase,
    source: AudioSource,
    session_start: Instant,
    elapsed_ms: u64,
)
    ensures
        match utterance_of(phrase, source, session_start, elapsed_ms) {
            Some(u) => u.start_ms <= u.end_ms && u.text.len() > 0 && u.source == source,
            None => true,
        },
{
}

/// A word reaches the phrase of its own source and leaves the words of the other
/// source alone, unless their turn ends, which hands them out.
pub proof fn law_turns_lose_no_word(
    streams: Streams,
    source: AudioSource,
    word: Seq<char>,
    now: Instant,
    checked: Instant,
)
    ensures
        ({
            let after = streams.after_word(source, word, now, checked);
            let other = other_source(source);
            &&& after.phrase(source) == streams.phrase(source).add(word, now)
            &&& streams.turn_is_over(other, checked) ==> after.phrase(other) == Phrase::empty()
            &&& !streams.turn_is_over(other, checked) ==> after.phrase(other) == streams.phrase(
                other,
            )
        }),
{
}

/// What is handed out of a source carries that source and is what waits of that
/// source: every letter of its words, from when the first of them came, but not
/// after now, until now. Nothing is handed out exactly where nothing was said.
pub proof fn law_utterances_carry_their_source(streams: Streams, elapsed_ms: u64)
    requires
        streams.wf(),
    ensures
        streams.handed_out(AudioSource::Mic, elapsed_ms) matches Some(u) ==> {
            &&& u.source == AudioSource::Mic
            &&& text::unspaced(u.text) == text::letters_of(streams.mic_phrase.words)
            &&& streams.mic_phrase.flushed() == Some((streams.mic_phrase.first->0, u.text))
            &&& is_start(u.start_ms, streams.mic_phrase.first->0, streams.session_start, elapsed_ms)
            &&& u.end_ms == elapsed_ms
        },
        streams.handed_out(AudioSource::Sys, elapsed_ms) matches Some(u) ==> {
            &&& u.source == AudioSource::Sys
            &&& text::unspaced(u.text) == text::letters_of(streams.sys_phrase.words)
            &&& streams.sys_phrase.flushed() == Some((streams.sys_phrase.first->0, u.text))
            &&& is_start(u.start_ms, streams.sys_phrase.first->0, streams.session_start, elapsed_ms)
            &&& u.end_ms == elapsed_ms
        },
        streams.handed_out(AudioSource::Mic, elapsed_ms) is Some <==> exists|i: int|
            0 <= i < streams.mic_phrase.words.len() && text::has_letter(
                #[trigger] streams.mic_phrase.words[i],
            ),
        streams.handed_out(AudioSource::Sys, elapsed_ms) is Some <==> exists|i: int|
            0 <= i < streams.sys_phrase.words.len() && text::has_letter(
                #[trigger] streams.sys_phrase.words[i],
            ),
{
    law_phrases_lose_no_word(streams.mic_phrase);
    law_phrases_lose_no_word(streams.sys_phrase);
}

/// The milliseconds at which an utterance starts whose first word came at
/// `first`.
pub open spec fn is_start(
    start_ms: u64,
    first: Instant,
    session_start: Instant,
    elapsed_ms: u64,
) -> bool {
    let came = millis64(millis_between(first, session_start));
    &&& start_ms == came || start_ms == elapsed_ms
    &&& start_ms <= came
    &&& start_ms <= elapsed_ms
}

/// A word of the microphone joins the words of the microphone and one of the
/// system audio those of the system audio. The words of the other source stay,
/// unless it has been silent for more than 300 milliseconds, which ends its
/// turn. Nothing else changes.
pub proof fn law_words_join_their_own_source(
    streams: Streams,
    word: Seq<char>,
    now: Instant,
    checked: Instant,
)
    requires
        streams.wf(),
    ensures
        streams.after_word(AudioSource::Mic, word, now, checked) == (Streams {
            mic_phrase: streams.mic_phrase.add(word, now),
            sys_phrase: if streams.sys_phrase.words.len() > 0 && millis64(
                millis_between(checked, streams.sys_phrase.last->0),
            ) > 300 {
                Phrase::empty()
            } else {
                streams.sys_phrase
            },
            ..streams
        }),
        streams.after_word(AudioSource::Sys, word, now, checked) == (Streams {
            sys_phrase: streams.sys_phrase.add(word, now),
            mic_phrase: if streams.mic_phrase.words.len() > 0 && millis64(
                millis_between(checked, streams.mic_phrase.last->0),
            ) > 300 {
                Phrase::empty()
            } else {
                streams.mic_phrase
            },
            ..streams
        }),
        streams.turn_is_over(AudioSource::Mic, checked) <==> streams.mic_phrase.words.len() > 0
            && millis64(millis_between(checked, streams.mic_phrase.last->0)) > 300,
        streams.turn_is_over(AudioSource::Sys, checked) <==> streams.sys_phrase.words.len() > 0
            && millis64(millis_between(checked, streams.sys_phrase.last->0)) > 300,
{
}

/// The words of a source that wait are its own, and taking them leaves those of
/// the other source.
pub proof fn law_sources_are_kept_apart(streams: Streams, phrase: Phrase)
    ensures
        streams.phrase(AudioSource::Mic) == streams.mic_phrase,
        streams.phrase(AudioSource::Sys) == streams.sys_phrase,
        streams.with_phrase(AudioSource::Mic, phrase) == (Streams { mic_phrase: phrase, ..streams }),
        streams.with_phrase(AudioSource::Sys, phrase) == (Streams { sys_phrase: phrase, ..streams }),
        other_source(AudioSource::Mic) == AudioSource::Sys,
        other_source(AudioSource::Sys) == AudioSource::Mic,
{
}

/// The first stream of the model is the microphone, the second the system audio,
/// and there is no other.
pub proof fn law_streams_of_the_model(batch_idx: usize)
    ensures
        batch_idx == 0 ==> source_of(batch_idx) == Some(AudioSource::Mic),
        batch_idx == 1 ==> source_of(batch_idx) == Some(AudioSource::Sys),
        batch_idx >= 2 ==> source_of(batch_idx) is None,
{
}

/// What is known of an utterance is what it holds.
pub proof fn law_utterances_are_known(utterance: Utterance)
    ensures
        utterance@.source == utterance.source,
        utterance@.text == utterance.text@,
        utterance@.start_ms == utterance.start_ms,
        utterance@.end_ms == utterance.end_ms,
        said(Some(utterance)) == Some(utterance@),
        said(None) is None,
{
}

} // verus!
