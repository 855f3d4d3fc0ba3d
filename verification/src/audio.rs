//! Audio samples, each kept as the bits of a single-precision number.

use vstd::prelude::*;

use crate::kyutai::CHUNK_SIZE;

verus! {

/// The bits of a silent sample.
pub const SILENCE: u32 = 0;

/// How many bytes a sample takes.
pub const SAMPLE_BYTES: usize = 4;

/// Audio data collected during transcription (kept in memory, never written to
/// disk), at 16kHz mono.
#[derive(Debug)]
pub struct RecordedAudio {
    /// The samples of the microphone.
    pub mic_samples: Vec<u32>,
    /// The samples of the system audio.
    pub sys_samples: Vec<u32>,
}

impl Default for RecordedAudio {
    fn default() -> (audio: Self)
        ensures
            audio.mic_samples@.len() == 0,
            audio.sys_samples@.len() == 0,
    {
        RecordedAudio { mic_samples: Vec::new(), sys_samples: Vec::new() }
    }
}

impl RecordedAudio {
    /// How many samples the longer of the two sources has.
    pub fn longest(&self) -> (n: usize)
        ensures
            n >= self.mic_samples@.len(),
            n >= self.sys_samples@.len(),
            n == self.mic_samples@.len() || n == self.sys_samples@.len(),
    {
        if self.mic_samples.len() > self.sys_samples.len() {
            self.mic_samples.len()
        } else {
            self.sys_samples.len()
        }
    }

    /// Memory usage in bytes.
    pub fn memory_bytes(&self) -> (n: usize)
        requires
            (self.mic_samples@.len() + self.sys_samples@.len()) * SAMPLE_BYTES <= usize::MAX,
        ensures
            n == (self.mic_samples@.len() + self.sys_samples@.len()) * SAMPLE_BYTES,
    {
        (self.mic_samples.len() + self.sys_samples.len()) * SAMPLE_BYTES
    }
}

/// Both sources as one: the only source that has samples, or the samples of the
/// two side by side.
#[derive(Debug)]
pub enum Muxed {
    /// The samples of the only source.
    Single(Vec<u32>),
    /// The samples of both sources at each position; their mean is the sound.
    Pairs(Vec<(u32, u32)>),
}

/// The sample at a position, and silence beyond the end.
pub open spec fn sample_at(samples: Seq<u32>, i: int) -> u32 {
    if 0 <= i < samples.len() {
        samples[i]
    } else {
        SILENCE
    }
}

/// The longer of two lengths.
pub open spec fn longer(a: nat, b: nat) -> nat {
    if a > b {
        a
    } else {
        b
    }
}

/// Copies samples.
pub fn copy_samples(samples: &[u32]) -> (copy: Vec<u32>)
    ensures
        copy@ == samples@,
{
    let mut copy: Vec<u32> = Vec::new();
    for i in 0..samples.len()
        invariant
            copy@ == samples@.take(i as int),
    {
        copy.push(samples[i]);
    }
    copy
}

/// The number of samples that muxed audio stands for.
pub open spec fn muxed_len(muxed: Muxed) -> nat {
    match muxed {
        Muxed::Single(samples) => samples@.len(),
        Muxed::Pairs(pairs) => pairs@.len(),
    }
}

impl Muxed {
    /// The number of samples.
    pub fn len(&self) -> (n: usize)
        ensures
            n == muxed_len(*self),
    {
        match self {
            Muxed::Single(samples) => samples.len(),
            Muxed::Pairs(pairs) => pairs.len(),
        }
    }
}

/// Muxes mic and system audio, handling different lengths. `None` if both are
/// empty.
pub fn mux_audio(mic_samples: &[u32], sys_samples: &[u32]) -> (muxed: Option<Muxed>)
    ensures
        muxed is Some ==> muxed_len(muxed->0) == longer(mic_samples@.len(), sys_samples@.len()),
        match muxed {
            None => mic_samples@.len() == 0 && sys_samples@.len() == 0,
            Some(Muxed::Single(samples)) => {
                ||| samples@ == mic_samples@ && mic_samples@.len() > 0 && sys_samples@.len() == 0
                ||| samples@ == sys_samples@ && sys_samples@.len() > 0 && mic_samples@.len() == 0
            },
            Some(Muxed::Pairs(pairs)) => {
                &&& mic_samples@.len() > 0
                &&& sys_samples@.len() > 0
                &&& pairs@ == Seq::new(
                    longer(mic_samples@.len(), sys_samples@.len()),
                    |i: int| (sample_at(mic_samples@, i), sample_at(sys_samples@, i)),
                )
            },
        },
{
    let has_mic = mic_samples.len() > 0;
    let has_sys = sys_samples.len() > 0;
    if !has_mic && !has_sys {
        return None;
    }
    if !has_sys {
        return Some(Muxed::Single(copy_samples(mic_samples)));
    }
    if !has_mic {
        return Some(Muxed::Single(copy_samples(sys_samples)));
    }
    let mux_len: usize = if mic_samples.len() > sys_samples.len() {
        mic_samples.len()
    } else {
        sys_samples.len()
    };
    let mut pairs: Vec<(u32, u32)> = Vec::new();
    for i in 0..mux_len
        invariant
            pairs@ == Seq::new(
                i as nat,
                |j: int| (sample_at(mic_samples@, j), sample_at(sys_samples@, j)),
            ),
    {
        let m: u32 = if i < mic_samples.len() {
            mic_samples[i]
        } else {
            SILENCE
        };
        let s: u32 = if i < sys_samples.len() {
            sys_samples[i]
        } else {
            SILENCE
        };
        pairs.push((m, s));
    }
    Some(Muxed::Pairs(pairs))
}

/// The number that four bytes stand for, the lowest first.
pub open spec fn little_endian(b0: u8, b1: u8, b2: u8, b3: u8) -> u32 {
    (b0 + b1 * 0x100 + b2 * 0x1_0000 + b3 * 0x100_0000) as u32
}

/// The samples in a buffer of bytes, four bytes each; what is left over at the
/// end is no sample.
pub fn samples_from_bytes(data: &[u8]) -> (samples: Vec<u32>)
    ensures
        samples@ == Seq::new(
            data@.len() / SAMPLE_BYTES as nat,
            |i: int|
                little_endian(data@[4 * i], data@[4 * i + 1], data@[4 * i + 2], data@[4 * i + 3]),
        ),
{
    let count: usize = data.len() / SAMPLE_BYTES;
    let mut samples: Vec<u32> = Vec::new();
    for i in 0..count
        invariant
            count == data@.len() / SAMPLE_BYTES as nat,
            data@.len() <= usize::MAX,
            samples@ == Seq::new(
                i as nat,
                |j: int|
                    little_endian(
                        data@[4 * j],
                        data@[4 * j + 1],
                        data@[4 * j + 2],
                        data@[4 * j + 3],
                    ),
            ),
    {
        let at: usize = 4 * i;
        let b0: u32 = data[at] as u32;
        let b1: u32 = data[at + 1] as u32;
        let b2: u32 = data[at + 2] as u32;
        let b3: u32 = data[at + 3] as u32;
        samples.push(b0 + b1 * 0x100 + b2 * 0x1_0000 + b3 * 0x100_0000);
    }
    samples
}

/// Samples that wait until there are enough of them for a chunk.
pub struct ChunkBuffer {
    samples: Vec<u32>,
}

impl View for ChunkBuffer {
    type V = Seq<u32>;

    closed spec fn view(&self) -> Seq<u32> {
        self.samples@
    }
}

/// A chunk of silence.
pub open spec fn silent_chunk() -> Seq<u32> {
    Seq::new(CHUNK_SIZE as nat, |i: int| SILENCE)
}

/// The next chunk of a buffer: its first samples if there are enough, or
/// silence.
pub open spec fn next_chunk(samples: Seq<u32>) -> Seq<u32> {
    if samples.len() >= CHUNK_SIZE {
        samples.take(CHUNK_SIZE as int)
    } else {
        silent_chunk()
    }
}

/// What is left of a buffer after its next chunk.
pub open spec fn after_chunk(samples: Seq<u32>) -> Seq<u32> {
    if samples.len() >= CHUNK_SIZE {
        samples.skip(CHUNK_SIZE as int)
    } else {
        samples
    }
}

impl ChunkBuffer {
    /// A buffer without samples.
    pub fn new() -> (buf: Self)
        ensures
            buf@ == Seq::<u32>::empty(),
    {
        ChunkBuffer { samples: Vec::new() }
    }

    /// Appends samples.
    pub fn extend(&mut self, samples: &[u32])
        ensures
            final(self)@ == old(self)@ + samples@,
    {
        let ghost before = self@;
        for i in 0..samples.len()
            invariant
                self@ == before + samples@.take(i as int),
        {
            self.samples.push(samples[i]);
        }
        assert(samples@.take(samples@.len() as int) =~= samples@);
    }

    /// Tells whether there are enough samples for a chunk.
    pub fn has_chunk(&self) -> (b: bool)
        ensures
            b == (self@.len() >= CHUNK_SIZE),
    {
        self.samples.len() >= CHUNK_SIZE
    }

    /// Takes the next chunk; a chunk of silence when there are not enough
    /// samples.
    pub fn take_or_silence(&mut self) -> (chunk: Vec<u32>)
        ensures
            chunk@ == next_chunk(old(self)@),
            final(self)@ == after_chunk(old(self)@),
    {
        if self.samples.len() >= CHUNK_SIZE {
            let mut rest = self.samples.split_off(CHUNK_SIZE);
            std::mem::swap(&mut rest, &mut self.samples);
            assert(rest@ =~= old(self)@.take(CHUNK_SIZE as int));
            assert(self@ =~= old(self)@.skip(CHUNK_SIZE as int));
            rest
        } else {
            let chunk: Vec<u32> = vec![SILENCE; CHUNK_SIZE];
            assert(chunk@ =~= silent_chunk());
            chunk
        }
    }

    /// Takes the next chunk, if there are enough samples.
    pub fn take_chunk(&mut self) -> (chunk: Option<Vec<u32>>)
        ensures
            match chunk {
                Some(c) => old(self)@.len() >= CHUNK_SIZE && c@ == next_chunk(old(self)@),
                None => old(self)@.len() < CHUNK_SIZE,
            },
            final(self)@ == after_chunk(old(self)@),
    {
        if self.has_chunk() {
            Some(self.take_or_silence())
        } else {
            None
        }
    }
}

/// Chunks take the samples in order: a chunk and what is left are what was
/// there.
pub proof fn law_chunks_lose_nothing(samples: Seq<u32>)
    requires
        samples.len() >= CHUNK_SIZE,
    ensures
        next_chunk(samples) + after_chunk(samples) == samples,
        next_chunk(samples).len() == CHUNK_SIZE,
{
    assert(next_chunk(samples) + after_chunk(samples) =~= samples);
}

/// A source that is at an end goes on in silence, which is zero; as long as it
/// is not, its own samples are heard.
pub proof fn law_silence_follows_the_end(samples: Seq<u32>, i: int)
    ensures
        0 <= i < samples.len() ==> sample_at(samples, i) == samples[i],
        i >= samples.len() ==> sample_at(samples, i) == 0,
        SAMPLE_BYTES == 4,
{
}

/// Of two lengths the longer is at least as long as both, and one of them.
pub proof fn law_longer(a: nat, b: nat, samples: Vec<u32>, pairs: Vec<(u32, u32)>)
    ensures
        longer(a, b) >= a,
        longer(a, b) >= b,
        longer(a, b) == a || longer(a, b) == b,
        muxed_len(Muxed::Single(samples)) == samples@.len(),
        muxed_len(Muxed::Pairs(pairs)) == pairs@.len(),
{
}

/// Each byte of a sample counts 256 times as much as the one before it.
pub proof fn law_bytes_of_a_sample(b0: u8, b1: u8, b2: u8, b3: u8)
    ensures
        ({
            let sample = little_endian(b0, b1, b2, b3);
            &&& sample % 0x100 == b0
            &&& (sample / 0x100) % 0x100 == b1
            &&& (sample / 0x1_0000) % 0x100 == b2
            &&& sample / 0x100_0000 == b3
        }),
{
}

/// A source without enough samples for a chunk gives 1920 silent samples and
/// keeps what it has.
pub proof fn law_silence_stands_in(samples: Seq<u32>, i: int)
    requires
        samples.len() < 1920,
    ensures
        next_chunk(samples).len() == 1920,
        0 <= i < 1920 ==> next_chunk(samples)[i] == 0,
        after_chunk(samples) == samples,
{
}

} // verus!
