//! The bookkeeping of streamed synthesis: which phoneme comes next, and how
//! the samples that have been produced are cut into chunks.
use vstd::prelude::*;
use crate::text::{chars_of, seqs_of, split_words, string_of, words};
use crate::voice::{Language, VoiceConfig};

verus! {

/// Default chunk size in samples (about 50 ms at 22050 Hz).
pub const DEFAULT_CHUNK_SIZE: usize = 1024;

/// Smallest chunk size that a configuration accepts.
pub const MIN_CHUNK_SIZE: usize = 256;

/// Streaming synthesis configuration.
#[derive(Debug, Clone, PartialEq, Eq, Structural)]
pub struct StreamingConfig {
    /// Chunk size in samples.
    pub chunk_size: usize,
    /// Voice configuration.
    pub voice: VoiceConfig,
    /// Enable prosody analysis.
    pub enable_prosody: bool,
}

impl StreamingConfig {
    /// Creates the default configuration: 1024-sample chunks, the default
    /// voice, prosody on.
    pub fn new() -> (r: StreamingConfig)
        ensures
            r == (StreamingConfig {
                chunk_size: DEFAULT_CHUNK_SIZE,
                voice: VoiceConfig::new_spec(Language::English),
                enable_prosody: true,
            }),
    {
        StreamingConfig {
            chunk_size: DEFAULT_CHUNK_SIZE,
            voice: VoiceConfig::new(Language::English),
            enable_prosody: true,
        }
    }

    /// Sets the chunk size, at least 256 samples.
    pub fn with_chunk_size(self, size: usize) -> (r: StreamingConfig)
        ensures
            r == (StreamingConfig {
                chunk_size: if size < MIN_CHUNK_SIZE {
                    MIN_CHUNK_SIZE
                } else {
                    size
                },
                ..self
            }),
    {
        let chunk_size = if size < MIN_CHUNK_SIZE {
            MIN_CHUNK_SIZE
        } else {
            size
        };
        StreamingConfig { chunk_size, ..self }
    }

    /// Sets the voice configuration.
    pub fn with_voice(self, voice: VoiceConfig) -> (r: StreamingConfig)
        ensures
            r == (StreamingConfig { voice, ..self }),
    {
        StreamingConfig { voice, ..self }
    }

    /// Sets whether to enable prosody analysis.
    pub fn with_prosody(self, enable: bool) -> (r: StreamingConfig)
        ensures
            r == (StreamingConfig { enable_prosody: enable, ..self }),
    {
        StreamingConfig { enable_prosody: enable, ..self }
    }
}

impl Default for StreamingConfig {
    /// 1024-sample chunks, the default voice, prosody on.
    fn default() -> (r: StreamingConfig)
        ensures
            r == (StreamingConfig {
                chunk_size: DEFAULT_CHUNK_SIZE,
                voice: VoiceConfig::new_spec(Language::English),
                enable_prosody: true,
            }),
    {
        StreamingConfig::new()
    }
}

/// The state of one stream: the phoneme symbols still to synthesize and the
/// samples waiting to be handed out in chunks.
pub struct StreamState {
    tokens: Vec<String>,
    index: usize,
    pending: Vec<i16>,
    chunk_size: usize,
    complete: bool,
    fed: Ghost<Seq<i16>>,
    emitted: Ghost<Seq<i16>>,
}

impl StreamState {
    /// The phoneme symbols of the stream.
    pub closed spec fn spec_tokens(self) -> Seq<Seq<char>> {
        Seq::new(self.tokens@.len(), |i: int| self.tokens@[i]@)
    }

    /// How many symbols have been handed out.
    pub closed spec fn spec_index(self) -> nat {
        self.index as nat
    }

    /// Samples produced and not yet handed out.
    pub closed spec fn spec_pending(self) -> Seq<i16> {
        self.pending@
    }

    /// Every sample fed to the stream so far.
    pub closed spec fn spec_fed(self) -> Seq<i16> {
        self.fed@
    }

    /// Every sample handed out in chunks so far, in order.
    pub closed spec fn spec_emitted(self) -> Seq<i16> {
        self.emitted@
    }

    /// The chunk size.
    pub closed spec fn spec_chunk_size(self) -> nat {
        self.chunk_size as nat
    }

    /// Whether every symbol has been handed out and the end was seen.
    pub closed spec fn spec_complete(self) -> bool {
        self.complete
    }

    /// What was fed is what was handed out followed by what waits, and the
    /// position lies within the symbols.
    pub open spec fn wf(self) -> bool {
        &&& self.spec_fed() == self.spec_emitted() + self.spec_pending()
        &&& self.spec_index() <= self.spec_tokens().len()
        &&& self.spec_chunk_size() > 0
        &&& self.spec_complete() ==> self.spec_index() == self.spec_tokens().len()
    }

    /// A stream over the symbols of a phoneme string, in chunks of
    /// `chunk_size` samples.
    pub fn new(phonemes: &str, chunk_size: usize) -> (r: StreamState)
        requires
            chunk_size > 0,
        ensures
            r.wf(),
            r.spec_tokens() == words(phonemes@),
            r.spec_index() == 0,
            r.spec_chunk_size() == chunk_size,
            r.spec_fed().len() == 0,
            r.spec_emitted().len() == 0,
            !r.spec_complete(),
    {
        let cs = chars_of(phonemes);
        let ws = split_words(&cs, 0, cs.len());
        let mut tokens: Vec<String> = Vec::new();
        let mut i: usize = 0;
        while i < ws.len()
            invariant
                i <= ws.len(),
                tokens@.len() == i,
                forall|k: int| 0 <= k < i ==> #[trigger] tokens@[k]@ == ws@[k]@,
            decreases ws.len() - i,
        {
            let t = string_of(&ws[i], 0, ws[i].len());
            assert(ws@[i as int]@.subrange(0, ws@[i as int]@.len() as int) =~= ws@[i as int]@);
            tokens.push(t);
            i += 1;
        }
        let r = StreamState {
            tokens,
            index: 0,
            pending: Vec::new(),
            chunk_size,
            complete: false,
            fed: Ghost(Seq::empty()),
            emitted: Ghost(Seq::empty()),
        };
        proof {
            assert(cs@.subrange(0, cs@.len() as int) =~= cs@);
            assert(r.spec_tokens() =~= seqs_of(ws@));
            assert(r.spec_fed() =~= r.spec_emitted() + r.spec_pending());
        }
        r
    }

    /// Returns the total number of phoneme symbols.
    pub fn total_phonemes(&self) -> (r: usize)
        ensures
            r == self.spec_tokens().len(),
    {
        self.tokens.len()
    }

    /// How many symbols have been handed out.
    pub fn consumed(&self) -> (r: usize)
        ensures
            r == self.spec_index(),
    {
        self.index
    }

    /// Whether the stream needs more samples before the next chunk: until
    /// the end has been seen, more than a chunk must wait, so that the chunk
    /// that empties the stream is known to be the last.
    pub open spec fn spec_wants_samples(self) -> bool {
        self.spec_pending().len() <= self.spec_chunk_size() && !self.spec_complete()
    }

    /// Whether the stream needs more samples before the next chunk.
    pub fn wants_samples(&self) -> (r: bool)
        ensures
            r == self.spec_wants_samples(),
    {
        self.pending.len() <= self.chunk_size && !self.complete
    }

    /// Hands out the next symbol; at the end, marks the stream complete.
    pub fn next_token(&mut self) -> (r: Option<String>)
        requires
            old(self).wf(),
        ensures
            final(self).wf(),
            final(self).spec_tokens() == old(self).spec_tokens(),
            final(self).spec_pending() == old(self).spec_pending(),
            final(self).spec_fed() == old(self).spec_fed(),
            final(self).spec_emitted() == old(self).spec_emitted(),
            final(self).spec_chunk_size() == old(self).spec_chunk_size(),
            old(self).spec_index() < old(self).spec_tokens().len() ==> {
                &&& r matches Some(t) && t@ == old(self).spec_tokens()[old(self).spec_index() as int]
                &&& final(self).spec_index() == old(self).spec_index() + 1
                &&& final(self).spec_complete() == old(self).spec_complete()
            },
            old(self).spec_index() >= old(self).spec_tokens().len() ==> {
                &&& r is None
                &&& final(self).spec_index() == old(self).spec_index()
                &&& final(self).spec_complete()
            },
    {
        if self.index >= self.tokens.len() {
            self.complete = true;
            return None;
        }
        let t = self.tokens[self.index].clone();
        self.index += 1;
        Some(t)
    }

    /// Adds produced samples after those that wait.
    pub fn feed(&mut self, samples: &Vec<i16>)
        requires
            old(self).wf(),
        ensures
            final(self).wf(),
            final(self).spec_tokens() == old(self).spec_tokens(),
            final(self).spec_index() == old(self).spec_index(),
            final(self).spec_complete() == old(self).spec_complete(),
            final(self).spec_chunk_size() == old(self).spec_chunk_size(),
            final(self).spec_pending() == old(self).spec_pending() + samples@,
            final(self).spec_fed() == old(self).spec_fed() + samples@,
            final(self).spec_emitted() == old(self).spec_emitted(),
    {
        let mut i: usize = 0;
        while i < samples.len()
            invariant
                i <= samples.len(),
                self.pending@ == old(self).pending@ + samples@.subrange(0, i as int),
                self.tokens == old(self).tokens,
                self.index == old(self).index,
                self.complete == old(self).complete,
                self.chunk_size == old(self).chunk_size,
                self.fed == old(self).fed,
                self.emitted == old(self).emitted,
            decreases samples.len() - i,
        {
            self.pending.push(samples[i]);
            i += 1;
            assert(self.pending@ =~= old(self).pending@ + samples@.subrange(0, i as int));
        }
        assert(samples@.subrange(0, samples.len() as int) =~= samples@);
        self.fed = Ghost(self.fed@ + samples@);
        assert(self.spec_fed() =~= self.spec_emitted() + self.spec_pending());
    }

    /// Hands out the next chunk: up to a chunk of the waiting samples, and
    /// whether it is the last (the end was seen and nothing waits after it);
    /// `None` when nothing waits.
    pub fn next_chunk(&mut self) -> (r: Option<(Vec<i16>, bool)>)
        requires
            old(self).wf(),
        ensures
            final(self).wf(),
            final(self).spec_tokens() == old(self).spec_tokens(),
            final(self).spec_index() == old(self).spec_index(),
            final(self).spec_complete() == old(self).spec_complete(),
            final(self).spec_chunk_size() == old(self).spec_chunk_size(),
            final(self).spec_fed() == old(self).spec_fed(),
            old(self).spec_pending().len() == 0 ==> r is None && final(self).spec_emitted()
                == old(self).spec_emitted(),
            old(self).spec_pending().len() > 0 ==> (r matches Some((chunk, last)) && {
                let n = if old(self).spec_pending().len() < old(self).spec_chunk_size() {
                    old(self).spec_pending().len()
                } else {
                    old(self).spec_chunk_size()
                };
                &&& chunk@ == old(self).spec_pending().subrange(0, n as int)
                &&& final(self).spec_pending() == old(self).spec_pending().subrange(
                    n as int,
                    old(self).spec_pending().len() as int,
                )
                &&& final(self).spec_emitted() == old(self).spec_emitted() + chunk@
                &&& last == (old(self).spec_complete() && final(self).spec_pending().len() == 0)
            }),
            !old(self).spec_wants_samples() && 0 < old(self).spec_pending().len()
                <= old(self).spec_chunk_size() ==> (r matches Some((_, last)) && last),
    {
        let len = self.pending.len();
        if len == 0 {
            return None;
        }
        let n = if len < self.chunk_size {
            len
        } else {
            self.chunk_size
        };
        let mut chunk: Vec<i16> = Vec::new();
        let mut rest: Vec<i16> = Vec::new();
        let mut i: usize = 0;
        while i < len
            invariant
                i <= len == self.pending.len(),
                n <= len,
                chunk@ == self.pending@.subrange(0, if i < n { i as int } else { n as int }),
                rest@ == (if i <= n { Seq::<i16>::empty() } else { self.pending@.subrange(n as int, i as int) }),
            decreases len - i,
        {
            if i < n {
                chunk.push(self.pending[i]);
            } else {
                rest.push(self.pending[i]);
            }
            i += 1;
            assert(chunk@ =~= self.pending@.subrange(0, if i < n { i as int } else { n as int }));
            assert(rest@ =~= (if i <= n { Seq::<i16>::empty() } else { self.pending@.subrange(n as int, i as int) }));
        }
        let ghost before = self.pending@;
        proof {
            if len == n {
                assert(rest@ =~= before.subrange(n as int, len as int));
            }
        }
        self.pending = rest;
        self.emitted = Ghost(self.emitted@ + chunk@);
        proof {
            assert(before =~= before.subrange(0, n as int) + before.subrange(n as int, len as int));
            assert(self.spec_fed() =~= self.spec_emitted() + self.spec_pending());
        }
        let last = self.complete && self.pending.len() == 0;
        Some((chunk, last))
    }
}

/// Cutting into chunks loses, adds and reorders nothing: at every point of
/// a stream, the chunks handed out, laid end to end and followed by what
/// waits, are exactly the samples fed; once nothing waits, the chunks alone
/// are.
pub proof fn lemma_chunks_concatenate_to_fed(s: StreamState)
    requires
        s.wf(),
    ensures
        s.spec_emitted() + s.spec_pending() == s.spec_fed(),
        s.spec_pending().len() == 0 ==> s.spec_emitted() == s.spec_fed(),
{
    if s.spec_pending().len() == 0 {
        assert(s.spec_emitted() + s.spec_pending() =~= s.spec_emitted());
    }
}

} // verus!
