//! The streaming speech model: how its network is set up, and what is made of
//! the messages that it sends. Operates at 24kHz, 1920-sample chunks (80ms per
//! step).

use vstd::prelude::*;

use crate::audio::{sample_at, SILENCE};
use crate::text;

verus! {

/// Chunk size: 1920 samples = 80ms at 24kHz.
pub const CHUNK_SIZE: usize = 1920;

/// Sample rate required by the model.
pub const SAMPLE_RATE: u32 = 24000;

/// HuggingFace model repo.
pub const MODEL_REPO: &'static str = "kyutai/stt-2.6b-en-candle";

/// How many samples of silence flush the model at the end of a file: one
/// second.
pub const SUFFIX_LEN: usize = 24000;

/// The part of the model's configuration file that shapes the network.
#[derive(Debug, Clone, Copy)]
pub struct Config {
    /// Size of the audio vocabulary.
    pub card: usize,
    /// Size of the text vocabulary.
    pub text_card: usize,
    /// Width of the model.
    pub dim: usize,
    /// Number of audio codebooks.
    pub n_q: usize,
    /// Length of the attention context.
    pub context: usize,
    /// Longest period of the positional embedding.
    pub max_period: usize,
    /// Number of attention heads.
    pub num_heads: usize,
    /// Number of layers.
    pub num_layers: usize,
    /// Whether attention is causal.
    pub causal: bool,
}

/// The transformer of the language model.
#[derive(Debug, Clone, Copy, PartialEq, Eq, Structural)]
pub struct TransformerConfig {
    /// Width of the model.
    pub d_model: usize,
    /// Number of attention heads.
    pub num_heads: usize,
    /// Number of layers.
    pub num_layers: usize,
    /// Width of the feed-forward layers.
    pub dim_feedforward: usize,
    /// Whether attention is causal.
    pub causal: bool,
    /// Whether the norm comes first.
    pub norm_first: bool,
    /// Whether the feed-forward layers have a bias.
    pub bias_ff: bool,
    /// Whether attention has a bias.
    pub bias_attn: bool,
    /// Length of the attention context.
    pub context: usize,
    /// Longest period of the positional embedding.
    pub max_period: usize,
    /// Whether there is a convolution block.
    pub use_conv_block: bool,
    /// Whether the convolutions have a bias.
    pub use_conv_bias: bool,
    /// Whether the layout is that of a convolution.
    pub conv_layout: bool,
    /// Size of the convolution kernel.
    pub conv_kernel_size: usize,
    /// How often keys and values are repeated.
    pub kv_repeat: usize,
    /// Longest sequence.
    pub max_seq_len: usize,
    /// Whether cross attention is shared.
    pub shared_cross_attn: bool,
}

/// The language model.
#[derive(Debug, Clone, Copy, PartialEq, Eq, Structural)]
pub struct LmConfig {
    /// Its transformer.
    pub transformer: TransformerConfig,
    /// Size of the audio vocabulary.
    pub audio_vocab_size: usize,
    /// Size of the text vocabulary at the input.
    pub text_in_vocab_size: usize,
    /// Size of the text vocabulary at the output.
    pub text_out_vocab_size: usize,
    /// Number of audio codebooks.
    pub audio_codebooks: usize,
}

impl Config {
    /// The language model that the configuration describes: the vocabularies
    /// at the input have one more entry, and the feed-forward layers are four
    /// times as wide as the model.
    pub fn model_config(&self) -> (lm: LmConfig)
        requires
            self.dim * 4 <= usize::MAX,
            self.card < usize::MAX,
            self.text_card < usize::MAX,
        ensures
            lm == (LmConfig {
                transformer: TransformerConfig {
                    d_model: self.dim,
                    num_heads: self.num_heads,
                    num_layers: self.num_layers,
                    dim_feedforward: (self.dim * 4) as usize,
                    causal: self.causal,
                    norm_first: true,
                    bias_ff: false,
                    bias_attn: false,
                    context: self.context,
                    max_period: self.max_period,
                    use_conv_block: false,
                    use_conv_bias: true,
                    conv_layout: false,
                    conv_kernel_size: 3,
                    kv_repeat: 1,
                    max_seq_len: 16384,
                    shared_cross_attn: false,
                },
                audio_vocab_size: (self.card + 1) as usize,
                text_in_vocab_size: (self.text_card + 1) as usize,
                text_out_vocab_size: self.text_card,
                audio_codebooks: self.n_q,
            }),
    {
        let transformer = TransformerConfig {
            d_model: self.dim,
            num_heads: self.num_heads,
            num_layers: self.num_layers,
            dim_feedforward: self.dim * 4,
            causal: self.causal,
            norm_first: true,
            bias_ff: false,
            bias_attn: false,
            context: self.context,
            max_period: self.max_period,
            use_conv_block: false,
            use_conv_bias: true,
            conv_layout: false,
            conv_kernel_size: 3,
            kv_repeat: 1,
            max_seq_len: 4096 * 4,
            shared_cross_attn: false,
        };
        LmConfig {
            transformer,
            audio_vocab_size: self.card + 1,
            text_in_vocab_size: self.text_card + 1,
            text_out_vocab_size: self.text_card,
            audio_codebooks: self.n_q,
        }
    }
}

/// Where the model runs.
#[derive(Debug, Clone, Copy, PartialEq, Eq, Structural)]
pub enum DeviceKind {
    /// The processor.
    Cpu,
    /// A Metal GPU.
    Metal,
    /// A CUDA GPU.
    Cuda,
}

/// The appropriate device (Metal > CUDA > CPU).
pub fn get_device(cpu: bool, metal_available: bool, cuda_available: bool) -> (device: DeviceKind)
    ensures
        device == DeviceKind::Metal <==> !cpu && metal_available,
        device == DeviceKind::Cuda <==> !cpu && !metal_available && cuda_available,
        device == DeviceKind::Cpu <==> cpu || !metal_available && !cuda_available,
{
    if cpu {
        DeviceKind::Cpu
    } else if metal_available {
        DeviceKind::Metal
    } else if cuda_available {
        DeviceKind::Cuda
    } else {
        DeviceKind::Cpu
    }
}

/// What the model sends. Times are the bits of a double-precision number of
/// seconds.
#[derive(Debug)]
pub enum AsrMessage {
    /// A word was recognised.
    Word {
        /// The word.
        text: String,
        /// The stream in which it was recognised.
        batch_idx: usize,
        /// When it starts.
        start: u64,
    },
    /// The last word has ended.
    EndWord {
        /// When it ended.
        stop: u64,
    },
    /// A step was made.
    Step {
        /// Whether the model takes this for the end of a sentence.
        boundary: bool,
    },
}

/// The words among the messages, each with its stream.
pub open spec fn words_in(msgs: Seq<AsrMessage>) -> Seq<(usize, Seq<char>)>
    decreases msgs.len(),
{
    if msgs.len() == 0 {
        Seq::empty()
    } else {
        let earlier = words_in(msgs.drop_last());
        match msgs.last() {
            AsrMessage::Word { text, batch_idx, .. } => earlier.push((batch_idx, text@)),
            _ => earlier,
        }
    }
}

/// The streams and the characters of words.
pub open spec fn word_views(words: Seq<(usize, String)>) -> Seq<(usize, Seq<char>)> {
    words.map_values(|w: (usize, String)| (w.0, w.1@))
}

/// The words that a step over several streams gave: (stream, word) pairs.
pub fn batched_words(msgs: &Vec<AsrMessage>) -> (words: Vec<(usize, String)>)
    ensures
        word_views(words@) == words_in(msgs@),
{
    let mut words: Vec<(usize, String)> = Vec::new();
    for i in 0..msgs.len()
        invariant
            word_views(words@) == words_in(msgs@.take(i as int)),
    {
        assert(msgs@.take(i + 1).drop_last() =~= msgs@.take(i as int));
        let ghost before = words@;
        if let AsrMessage::Word { text, batch_idx, .. } = &msgs[i] {
            let word = text.clone();
            words.push((*batch_idx, word));
            assert(word_views(words@) =~= word_views(before).push((*batch_idx, word@)));
        }
    }
    assert(msgs@.take(msgs@.len() as int) =~= msgs@);
    words
}

/// The words that a step over one stream gave.
pub fn chunk_words(msgs: &Vec<AsrMessage>) -> (words: Vec<String>)
    ensures
        text::views(words@) == words_in(msgs@).map_values(|w: (usize, Seq<char>)| w.1),
{
    let batched = batched_words(msgs);
    let ghost all = words_in(msgs@).map_values(|w: (usize, Seq<char>)| w.1);
    let mut words: Vec<String> = Vec::new();
    for i in 0..batched.len()
        invariant
            word_views(batched@) == words_in(msgs@),
            all == words_in(msgs@).map_values(|w: (usize, Seq<char>)| w.1),
            text::views(words@) == all.take(i as int),
    {
        let word = batched[i].1.clone();
        assert(word_views(batched@)[i as int].1 == batched@[i as int].1@);
        assert(text::views(words@.push(word)) =~= text::views(words@).push(word@));
        words.push(word);
        assert(text::views(words@) =~= all.take(i + 1));
    }
    assert(all.take(batched@.len() as int) =~= all);
    words
}

/// Samples of several streams for one step.
#[derive(Debug)]
pub struct Batch {
    /// The samples of the streams, one stream after the other.
    pub samples: Vec<u32>,
    /// How many streams there are.
    pub rows: usize,
    /// How many samples the first stream has.
    pub row_len: usize,
}

/// The samples of the streams, one stream after the other.
pub open spec fn all_samples(chunks: Seq<Vec<u32>>) -> Seq<u32>
    decreases chunks.len(),
{
    if chunks.len() == 0 {
        Seq::empty()
    } else {
        all_samples(chunks.drop_last()) + chunks.last()@
    }
}

/// Puts the chunks of several streams together for one step. `None` if there
/// are no streams.
pub fn batch_chunks(chunks: &Vec<Vec<u32>>) -> (batch: Option<Batch>)
    ensures
        match batch {
            Some(b) => {
                &&& chunks@.len() > 0
                &&& b.samples@ == all_samples(chunks@)
                &&& b.rows == chunks@.len()
                &&& b.row_len == chunks@[0]@.len()
            },
            None => chunks@.len() == 0,
        },
{
    if chunks.len() == 0 {
        return None;
    }
    let mut samples: Vec<u32> = Vec::new();
    for i in 0..chunks.len()
        invariant
            samples@ == all_samples(chunks@.take(i as int)),
    {
        assert(chunks@.take(i + 1).drop_last() =~= chunks@.take(i as int));
        let ghost before = samples@;
        let chunk = &chunks[i];
        for j in 0..chunk.len()
            invariant
                samples@ == before + chunk@.take(j as int),
        {
            samples.push(chunk[j]);
        }
        assert(chunk@.take(chunk@.len() as int) =~= chunk@);
    }
    assert(chunks@.take(chunks@.len() as int) =~= chunks@);
    Some(Batch { samples, rows: chunks.len(), row_len: chunks[0].len() })
}

/// How many chunks a file of this many samples is cut into, with the silence
/// at its end.
pub open spec fn chunk_count(len: nat) -> nat {
    ((len + SUFFIX_LEN + CHUNK_SIZE - 1) / (CHUNK_SIZE as int)) as nat
}

/// Cuts a file into chunks of the exact size that the model requires, with a
/// second of silence behind it and the last chunk padded with silence.
pub fn file_chunks(pcm: &Vec<u32>) -> (chunks: Vec<Vec<u32>>)
    requires
        pcm@.len() + SUFFIX_LEN + CHUNK_SIZE <= usize::MAX,
    ensures
        chunks@.len() == chunk_count(pcm@.len()),
        forall|k: int|
            0 <= k < chunks@.len() ==> (#[trigger] chunks@[k])@ == Seq::new(
                CHUNK_SIZE as nat,
                |j: int| sample_at(pcm@, k * CHUNK_SIZE + j),
            ),
{
    let count: usize = (pcm.len() + SUFFIX_LEN + CHUNK_SIZE - 1) / CHUNK_SIZE;
    let mut chunks: Vec<Vec<u32>> = Vec::new();
    for k in 0..count
        invariant
            count == chunk_count(pcm@.len()),
            count * CHUNK_SIZE <= pcm@.len() + SUFFIX_LEN + CHUNK_SIZE <= usize::MAX,
            chunks@.len() == k,
            forall|i: int|
                0 <= i < k ==> (#[trigger] chunks@[i])@ == Seq::new(
                    CHUNK_SIZE as nat,
                    |j: int| sample_at(pcm@, i * CHUNK_SIZE + j),
                ),
    {
        let from: usize = k * CHUNK_SIZE;
        let mut chunk: Vec<u32> = Vec::new();
        for j in 0..CHUNK_SIZE
            invariant
                from == k * CHUNK_SIZE,
                from + CHUNK_SIZE <= usize::MAX,
                chunk@ == Seq::new(j as nat, |i: int| sample_at(pcm@, k * CHUNK_SIZE + i)),
        {
            let i: usize = from + j;
            chunk.push(
                if i < pcm.len() {
                    pcm[i]
                } else {
                    SILENCE
                },
            );
        }
        chunks.push(chunk);
    }
    chunks
}

/// A passage of a file. Times are the bits of a double-precision number of
/// seconds.
#[derive(Debug, Clone)]
pub struct FileSegment {
    /// What is said.
    pub text: String,
    /// When it starts.
    pub start: u64,
    /// When it ends.
    pub end: u64,
}

/// What a passage holds.
pub struct Passage {
    /// What is said.
    pub text: Seq<char>,
    /// When it starts.
    pub start: u64,
    /// When it ends.
    pub end: u64,
}

impl View for FileSegment {
    type V = Passage;

    open spec fn view(&self) -> Passage {
        Passage { text: self.text@, start: self.start, end: self.end }
    }
}

/// The passages of a file so far, and the words that belong to none yet.
pub struct FileTranscript {
    segments: Vec<FileSegment>,
    current: Vec<(String, u64)>,
    pending: Option<(String, u64)>,
}

/// A word and when it starts.
pub type TimedWord = (Seq<char>, u64);

/// What a file transcript holds.
#[verifier::ext_equal]
pub struct FileState {
    /// The passages so far.
    pub segments: Seq<Passage>,
    /// The words of the next passage that have ended.
    pub current: Seq<TimedWord>,
    /// The word that has not ended.
    pub pending: Option<TimedWord>,
}

/// What words say, one directly after the other, without white space at either
/// end.
pub open spec fn said(words: Seq<TimedWord>) -> Seq<char> {
    text::trimmed(text::joined(words.map_values(|w: TimedWord| w.0), ""@))
}

impl FileState {
    /// Nothing heard yet.
    pub open spec fn empty() -> FileState {
        FileState { segments: Seq::empty(), current: Seq::empty(), pending: None }
    }

    /// The word that had not ended is taken to have.
    pub open spec fn settled(self) -> FileState {
        match self.pending {
            Some(word) => FileState { current: self.current.push(word), pending: None, ..self },
            None => self,
        }
    }

    /// The words that have ended are made a passage that ends at `end`, unless
    /// they say nothing.
    pub open spec fn closed_at(self, end: u64) -> FileState {
        FileState {
            segments: if said(self.current).len() > 0 {
                self.segments.push(
                    Passage { text: said(self.current), start: self.current[0].1, end },
                )
            } else {
                self.segments
            },
            current: Seq::empty(),
            ..self
        }
    }

    /// After one more message. A word waits until the next word or its own end;
    /// its end and the end of a sentence close the passage.
    pub open spec fn after(self, msg: AsrMessage) -> FileState {
        match msg {
            AsrMessage::Word { text, start, .. } => FileState {
                pending: Some((text@, start)),
                ..self.settled()
            },
            AsrMessage::EndWord { stop } => if self.pending is Some {
                self.settled().closed_at(stop)
            } else {
                self
            },
            AsrMessage::Step { boundary } => if boundary && self.current.len() > 0 {
                self.closed_at(self.current.last().1)
            } else {
                self
            },
        }
    }

    /// After the last message: the words that are left make the last passage.
    pub open spec fn finished(self) -> FileState {
        let settled = self.settled();
        if settled.current.len() > 0 {
            settled.closed_at(settled.current.last().1)
        } else {
            settled
        }
    }
}

/// The characters and the starts of words.
pub open spec fn timed_views(words: Seq<(String, u64)>) -> Seq<TimedWord> {
    words.map_values(|w: (String, u64)| (w.0@, w.1))
}

impl View for FileTranscript {
    type V = FileState;

    closed spec fn view(&self) -> FileState {
        FileState {
            segments: self.segments@.map_values(|s: FileSegment| s@),
            current: timed_views(self.current@),
            pending: match self.pending {
                Some((text, start)) => Some((text@, start)),
                None => None,
            },
        }
    }
}

impl FileTranscript {
    /// Nothing heard yet.
    pub fn new() -> (transcript: Self)
        ensures
            transcript@ == FileState::empty(),
    {
        let transcript = FileTranscript {
            segments: Vec::new(),
            current: Vec::new(),
            pending: None,
        };
        assert(transcript@ =~= FileState::empty());
        transcript
    }

    /// Takes the word that had not ended to have.
    fn settle(&mut self)
        ensures
            final(self)@ == old(self)@.settled(),
    {
        match self.pending.take() {
            Some(word) => {
                self.current.push(word);
            },
            None => {},
        }
        assert(self@ =~= old(self)@.settled());
    }

    /// Makes the words that have ended a passage.
    fn close(&mut self, end: u64)
        requires
            old(self)@.current.len() > 0,
        ensures
            final(self)@ == old(self)@.closed_at(end),
    {
        let mut words: Vec<String> = Vec::new();
        let ghost all = self@.current.map_values(|w: TimedWord| w.0);
        for i in 0..self.current.len()
            invariant
                all == timed_views(self.current@).map_values(|w: TimedWord| w.0),
                text::views(words@) == all.take(i as int),
        {
            let word = self.current[i].0.clone();
            assert(timed_views(self.current@)[i as int].0 == word@);
            assert(text::views(words@.push(word)) =~= text::views(words@).push(word@));
            words.push(word);
            assert(text::views(words@) =~= all.take(i + 1));
        }
        assert(all.take(self.current@.len() as int) =~= all);
        let trimmed = text::trim(text::join(&words, "").as_str());
        let start: u64 = self.current[0].1;
        if !trimmed.as_str().is_empty() {
            self.segments.push(FileSegment { text: trimmed, start, end });
        }
        self.current.clear();
        assert(self@ =~= old(self)@.closed_at(end));
    }

    /// Takes in a message.
    pub fn step(&mut self, msg: AsrMessage)
        ensures
            final(self)@ == old(self)@.after(msg),
    {
        match msg {
            AsrMessage::Word { text, start, .. } => {
                self.settle();
                self.pending = Some((text, start));
            },
            AsrMessage::EndWord { stop } => {
                if self.pending.is_some() {
                    self.settle();
                    self.close(stop);
                }
            },
            AsrMessage::Step { boundary } => {
                if boundary && self.current.len() > 0 {
                    let end: u64 = self.current[self.current.len() - 1].1;
                    self.close(end);
                }
            },
        }
    }

    /// The passages, after the last message.
    pub fn finish(self) -> (segments: Vec<FileSegment>)
        ensures
            segments@.map_values(|s: FileSegment| s@) == self@.finished().segments,
    {
        let mut transcript = self;
        transcript.settle();
        if transcript.current.len() > 0 {
            let end: u64 = transcript.current[transcript.current.len() - 1].1;
            transcript.close(end);
        }
        transcript.segments
    }
}

/// Every passage says something.
pub open spec fn speaks(state: FileState) -> bool {
    forall|i: int| 0 <= i < state.segments.len() ==> (#[trigger] state.segments[i]).text.len() > 0
}

/// No message makes an empty passage, nor changes one that was made.
pub proof fn law_passages_are_final(state: FileState, msg: AsrMessage)
    requires
        speaks(state),
    ensures
        speaks(state.after(msg)),
        speaks(state.finished()),
        state.segments.is_prefix_of(state.after(msg).segments),
        state.segments.is_prefix_of(state.finished().segments),
{
}

/// What texts say one after the other, without white space.
pub open spec fn letters(texts: Seq<Seq<char>>) -> Seq<char>
    decreases texts.len(),
{
    if texts.len() == 0 {
        Seq::empty()
    } else {
        letters(texts.drop_last()) + text::unspaced(texts.last())
    }
}

/// What passages say, without white space.
pub open spec fn passage_letters(passages: Seq<Passage>) -> Seq<char> {
    letters(passages.map_values(|p: Passage| p.text))
}

/// What words say, without white space.
pub open spec fn word_letters(words: Seq<TimedWord>) -> Seq<char> {
    letters(words.map_values(|w: TimedWord| w.0))
}

/// What the words of messages say, without white space.
pub open spec fn message_letters(msgs: Seq<AsrMessage>) -> Seq<char> {
    letters(words_in(msgs).map_values(|w: (usize, Seq<char>)| w.1))
}

impl FileState {
    /// Everything that was heard, without white space: what the passages say,
    /// then the words that belong to none yet.
    pub open spec fn heard(self) -> Seq<char> {
        passage_letters(self.segments) + word_letters(self.current) + match self.pending {
            Some((text, _)) => text::unspaced(text),
            None => Seq::empty(),
        }
    }

    /// After these messages.
    pub open spec fn after_all(self, msgs: Seq<AsrMessage>) -> FileState
        decreases msgs.len(),
    {
        if msgs.len() == 0 {
            self
        } else {
            self.after_all(msgs.drop_last()).after(msgs.last())
        }
    }
}

proof fn lemma_letters_push(texts: Seq<Seq<char>>, more: Seq<char>)
    ensures
        letters(texts.push(more)) == letters(texts) + text::unspaced(more),
{
    assert(texts.push(more).drop_last() =~= texts);
}

proof fn lemma_letters_joined(texts: Seq<Seq<char>>)
    ensures
        letters(texts) == text::unspaced(text::joined(texts, ""@)),
    decreases texts.len(),
{
    reveal_strlit("");
    let all = text::joined(texts, ""@);
    if texts.len() == 0 {
        reveal(Seq::filter);
        assert(text::unspaced(all) =~= Seq::empty());
    } else {
        let fewer = texts.drop_last();
        lemma_letters_joined(fewer);
        text::lemma_unspaced_add(text::joined(fewer, ""@), texts.last());
        assert(text::joined(fewer, ""@) + texts.last() =~= all);
    }
}

/// Settling a word loses none of it.
proof fn lemma_settled_heard(state: FileState)
    ensures
        state.settled().heard() == state.heard(),
{
    if let Some(word) = state.pending {
        let texts = state.current.map_values(|w: TimedWord| w.0);
        lemma_letters_push(texts, word.0);
        assert(state.current.push(word).map_values(|w: TimedWord| w.0) =~= texts.push(word.0));
        assert(state.settled().heard() =~= state.heard());
    }
}

/// Closing a passage loses nothing of its words.
proof fn lemma_closed_heard(state: FileState, end: u64)
    ensures
        state.closed_at(end).heard() == state.heard(),
{
    let texts = state.current.map_values(|w: TimedWord| w.0);
    let passages = state.segments.map_values(|p: Passage| p.text);
    let closed = state.closed_at(end);
    lemma_letters_joined(texts);
    text::lemma_unspaced_trimmed(text::joined(texts, ""@));
    assert(text::unspaced(said(state.current)) == word_letters(state.current));
    assert(closed.current.map_values(|w: TimedWord| w.0) =~= Seq::empty());
    if said(state.current).len() > 0 {
        lemma_letters_push(passages, said(state.current));
        assert(closed.segments.map_values(|p: Passage| p.text) =~= passages.push(
            said(state.current),
        ));
    } else {
        assert(said(state.current) =~= Seq::empty());
        reveal(Seq::filter);
        assert(text::unspaced(said(state.current)) =~= Seq::empty());
    }
    assert(closed.heard() =~= state.heard());
}

/// A message adds its word, if it has one, to what was heard, and loses nothing
/// of it.
pub proof fn law_messages_lose_no_word(state: FileState, msg: AsrMessage)
    ensures
        state.after(msg).heard() == state.heard() + match msg {
            AsrMessage::Word { text, .. } => text::unspaced(text@),
            _ => Seq::empty(),
        },
{
    lemma_settled_heard(state);
    match msg {
        AsrMessage::Word { text, start, .. } => {
            assert(state.after(msg).heard() =~= state.heard() + text::unspaced(text@));
        },
        AsrMessage::EndWord { stop } => {
            if state.pending is Some {
                lemma_closed_heard(state.settled(), stop);
            }
            assert(state.after(msg).heard() =~= state.heard() + Seq::empty());
        },
        AsrMessage::Step { boundary } => {
            if boundary && state.current.len() > 0 {
                lemma_closed_heard(state, state.current.last().1);
            }
            assert(state.after(msg).heard() =~= state.heard() + Seq::empty());
        },
    }
}

/// The passages of a file say every word that was recognised once and in order,
/// up to white space, and nothing else.
pub proof fn law_passages_lose_no_word(msgs: Seq<AsrMessage>)
    ensures
        ({
            let done = FileState::empty().after_all(msgs).finished();
            &&& passage_letters(done.segments) == message_letters(msgs)
            &&& done.current.len() == 0
            &&& done.pending is None
        }),
{
    let state = FileState::empty().after_all(msgs);
    lemma_all_heard(msgs);
    lemma_settled_heard(state);
    let settled = state.settled();
    if settled.current.len() > 0 {
        lemma_closed_heard(settled, settled.current.last().1);
    }
    let done = state.finished();
    assert(done.current.map_values(|w: TimedWord| w.0) =~= Seq::empty());
    assert(done.heard() =~= passage_letters(done.segments));
}

proof fn lemma_all_heard(msgs: Seq<AsrMessage>)
    ensures
        FileState::empty().after_all(msgs).heard() == message_letters(msgs),
    decreases msgs.len(),
{
    if msgs.len() == 0 {
        let none = FileState::empty();
        assert(none.segments.map_values(|p: Passage| p.text) =~= Seq::empty());
        assert(none.current.map_values(|w: TimedWord| w.0) =~= Seq::empty());
        assert(words_in(msgs).map_values(|w: (usize, Seq<char>)| w.1) =~= Seq::empty());
        assert(none.heard() =~= message_letters(msgs));
    } else {
        let fewer = msgs.drop_last();
        lemma_all_heard(fewer);
        law_messages_lose_no_word(FileState::empty().after_all(fewer), msgs.last());
        let texts = words_in(fewer).map_values(|w: (usize, Seq<char>)| w.1);
        match msgs.last() {
            AsrMessage::Word { text, batch_idx, .. } => {
                lemma_letters_push(texts, text@);
                assert(words_in(msgs).map_values(|w: (usize, Seq<char>)| w.1) =~= texts.push(text@));
            },
            _ => {
                assert(words_in(msgs) == words_in(fewer));
            },
        }
        assert(FileState::empty().after_all(msgs).heard() =~= message_letters(msgs));
    }
}

/// Every word among the messages is given with its stream, in order, and nothing
/// else is.
pub proof fn law_every_word_is_given(some: Seq<AsrMessage>, more: Seq<AsrMessage>, msg: AsrMessage)
    ensures
        words_in(Seq::empty()) == Seq::<(usize, Seq<char>)>::empty(),
        match msg {
            AsrMessage::Word { text, batch_idx, .. } => words_in(seq![msg]) == seq![
                (batch_idx, text@),
            ],
            _ => words_in(seq![msg]) == Seq::<(usize, Seq<char>)>::empty(),
        },
        words_in(some + more) == words_in(some) + words_in(more),
    decreases more.len(),
{
    assert(seq![msg].drop_last() =~= Seq::empty());
    assert(words_in(seq![msg].drop_last()) =~= Seq::empty());
    if more.len() == 0 {
        assert(some + more =~= some);
        assert(words_in(some + more) =~= words_in(some) + words_in(more));
    } else {
        law_every_word_is_given(some, more.drop_last(), msg);
        assert((some + more).drop_last() =~= some + more.drop_last());
        assert(words_in(some + more) =~= words_in(some) + words_in(more));
    }
}

/// The samples of several streams stand one stream after the other, each in
/// full.
pub proof fn law_streams_stand_in_a_row(some: Seq<Vec<u32>>, more: Seq<Vec<u32>>, chunk: Vec<u32>)
    ensures
        all_samples(Seq::empty()) == Seq::<u32>::empty(),
        all_samples(seq![chunk]) == chunk@,
        all_samples(some + more) == all_samples(some) + all_samples(more),
    decreases more.len(),
{
    assert(seq![chunk].drop_last() =~= Seq::empty());
    assert(all_samples(seq![chunk].drop_last()) =~= Seq::empty());
    assert(seq![chunk].last() == chunk);
    assert(all_samples(seq![chunk]) =~= chunk@);
    if more.len() == 0 {
        assert(some + more =~= some);
        assert(all_samples(some + more) =~= all_samples(some) + all_samples(more));
    } else {
        law_streams_stand_in_a_row(some, more.drop_last(), chunk);
        assert((some + more).drop_last() =~= some + more.drop_last());
        assert(all_samples(some + more) =~= all_samples(some) + all_samples(more));
    }
}

/// The chunks of a file hold all of it and a second of silence, and no chunk
/// could be left out. A chunk has 1920 samples, and a second 24000.
pub proof fn law_chunks_hold_the_file(len: nat)
    ensures
        chunk_count(len) * 1920 >= len + 24000,
        (chunk_count(len) - 1) * 1920 < len + 24000,
        CHUNK_SIZE == 1920,
        SUFFIX_LEN == SAMPLE_RATE,
        SAMPLE_RATE == 24000,
{
}

/// What words say is all that they say one directly after the other, but for the
/// white space at its ends.
pub proof fn law_words_say_it_all(words: Seq<TimedWord>)
    ensures
        text::unspaced(said(words)) == word_letters(words),
        said(words) == text::trimmed(text::joined(words.map_values(|w: TimedWord| w.0), ""@)),
        said(words).len() > 0 ==> !text::is_white(said(words)[0]) && !text::is_white(
            said(words).last(),
        ),
{
    let texts = words.map_values(|w: TimedWord| w.0);
    let whole = text::joined(texts, ""@);
    lemma_letters_joined(texts);
    text::law_trimming_cuts_white_space(whole);
}

/// A passage of some words: it starts with the first of them and ends when it is
/// said to; words that say nothing make none.
pub open spec fn extended_by(
    before: Seq<Passage>,
    after: Seq<Passage>,
    words: Seq<TimedWord>,
    end: u64,
) -> bool {
    if text::has_letter(text::joined(words.map_values(|w: TimedWord| w.0), ""@)) {
        &&& after.len() == before.len() + 1
        &&& after.drop_last() == before
        &&& after.last().text == said(words)
        &&& after.last().start == words[0].1
        &&& after.last().end == end
    } else {
        after == before
    }
}

/// A word waits until the next one comes or it ends. When it ends, a passage is
/// made of all words that wait, until then. At the end of a sentence a passage is
/// made of the words that have ended, until the last of them started. No other
/// message makes one.
pub proof fn law_passages_have_their_times(state: FileState, msg: AsrMessage)
    ensures
        ({
            let after = state.after(msg);
            let waiting = match state.pending {
                Some(word) => state.current.push(word),
                None => state.current,
            };
            match msg {
                AsrMessage::Word { text, start, .. } => {
                    &&& after.segments == state.segments
                    &&& after.current == waiting
                    &&& after.pending == Some((text@, start))
                },
                AsrMessage::EndWord { stop } => if state.pending is Some {
                    &&& extended_by(state.segments, after.segments, waiting, stop)
                    &&& after.current.len() == 0
                    &&& after.pending is None
                } else {
                    after == state
                },
                AsrMessage::Step { boundary } => if boundary && state.current.len() > 0 {
                    &&& extended_by(
                        state.segments,
                        after.segments,
                        state.current,
                        state.current.last().1,
                    )
                    &&& after.current.len() == 0
                    &&& after.pending == state.pending
                } else {
                    after == state
                },
            }
        }),
{
    let waiting = match state.pending {
        Some(word) => state.current.push(word),
        None => state.current,
    };
    lemma_closed_extends(state, state.current.last().1);
    if let AsrMessage::EndWord { stop } = msg {
        lemma_closed_extends(state.settled(), stop);
    }
}

/// At the end of a file a passage is made of all words that wait, until the last
/// of them started.
pub proof fn law_last_passage_has_its_times(state: FileState)
    ensures
        ({
            let waiting = match state.pending {
                Some(word) => state.current.push(word),
                None => state.current,
            };
            &&& waiting.len() > 0 ==> extended_by(
                state.segments,
                state.finished().segments,
                waiting,
                waiting.last().1,
            )
            &&& waiting.len() == 0 ==> state.finished().segments == state.segments
        }),
{
    let settled = state.settled();
    lemma_closed_extends(settled, settled.current.last().1);
}

proof fn lemma_closed_extends(state: FileState, end: u64)
    ensures
        extended_by(state.segments, state.closed_at(end).segments, state.current, end),
{
    let whole = text::joined(state.current.map_values(|w: TimedWord| w.0), ""@);
    text::law_trimming_cuts_white_space(whole);
    if text::has_letter(whole) {
        assert(state.closed_at(end).segments.drop_last() =~= state.segments);
    }
}

/// What is known of a passage and of words is what they hold.
pub proof fn law_passages_are_known(segment: FileSegment, words: Seq<(usize, String)>, i: int)
    ensures
        segment@.text == segment.text@,
        segment@.start == segment.start,
        segment@.end == segment.end,
        word_views(words).len() == words.len(),
        0 <= i < words.len() ==> word_views(words)[i] == (words[i].0, words[i].1@),
{
}

} // verus!
