//! Per-speaker sample buffer and the readiness rule that ends an utterance.

use vstd::prelude::*;
use crate::ids::SpeakerId;

verus! {

/// Default silence threshold of the periodic sweep, in milliseconds.
pub const SILENCE_MS: u64 = 1500;

/// Default minimum utterance length: half a second at 48 kHz.
pub const MIN_SAMPLES: usize = 24000;

/// Accumulated audio of one speaker.
pub struct TranslationBuffer {
    /// The owner: every sample in the buffer was spoken by this speaker, and
    /// utterances cut out of the buffer go out under this name.
    pub user_id: SpeakerId,
    pub samples: Vec<i16>,
    pub last_activity: i64,
    pub is_speaking: bool,
}

/// Mathematical value of a [`TranslationBuffer`].
pub struct BufferView {
    pub user_id: SpeakerId,
    pub samples: Seq<i16>,
    pub last_activity: i64,
    pub is_speaking: bool,
}

impl BufferView {
    /// A fresh, empty buffer created at `now_ms`.
    pub open spec fn fresh(user_id: SpeakerId, now_ms: i64) -> BufferView {
        BufferView { user_id, samples: Seq::empty(), last_activity: now_ms, is_speaking: false }
    }

    /// The buffer after `chunk` arrived at `now_ms`.
    pub open spec fn appended(self, chunk: Seq<i16>, now_ms: i64) -> BufferView {
        BufferView {
            user_id: self.user_id,
            samples: self.samples + chunk,
            last_activity: now_ms,
            is_speaking: true,
        }
    }

    /// The buffer after a tick without audio.
    pub open spec fn silenced(self) -> BufferView {
        BufferView { is_speaking: false, ..self }
    }

    /// The buffer after its content was taken.
    pub open spec fn cleared(self) -> BufferView {
        BufferView { samples: Seq::empty(), is_speaking: false, ..self }
    }

    /// Milliseconds between the last append and `now_ms`; negative when the
    /// clock went backwards.
    pub open spec fn elapsed_ms(self, now_ms: i64) -> int {
        now_ms - self.last_activity
    }

    /// The readiness rule: the speaker paused for longer than the silence
    /// threshold and the buffer holds at least the minimum length.
    pub open spec fn ready(self, silence_ms: u64, min_samples: usize, now_ms: i64) -> bool {
        &&& self.elapsed_ms(now_ms) > silence_ms
        &&& self.samples.len() >= min_samples
    }

    /// The buffer after each chunk of `chunks` was appended in turn, the
    /// `i`-th at `times[i]`.
    pub open spec fn after_appends(self, chunks: Seq<Seq<i16>>, times: Seq<i64>) -> BufferView
        recommends
            chunks.len() == times.len(),
        decreases chunks.len(),
    {
        if chunks.len() == 0 {
            self
        } else {
            self.after_appends(chunks.drop_last(), times.drop_last()).appended(
                chunks.last(),
                times.last(),
            )
        }
    }
}

/// All chunks of `chunks`, one after the other.
pub open spec fn concat_all(chunks: Seq<Seq<i16>>) -> Seq<i16>
    decreases chunks.len(),
{
    if chunks.len() == 0 {
        Seq::empty()
    } else {
        concat_all(chunks.drop_last()) + chunks.last()
    }
}

/// Sum of the lengths of `chunks`.
pub open spec fn total_len(chunks: Seq<Seq<i16>>) -> nat
    decreases chunks.len(),
{
    if chunks.len() == 0 {
        0
    } else {
        total_len(chunks.drop_last()) + chunks.last().len()
    }
}

/// Appends without a flush in between accumulate: the buffer holds its
/// earlier content followed by every chunk in arrival order, so its length
/// grows by exactly the sum of the chunk lengths.
pub proof fn lemma_appends_accumulate(b: BufferView, chunks: Seq<Seq<i16>>, times: Seq<i64>)
    requires
        chunks.len() == times.len(),
    ensures
        b.after_appends(chunks, times).samples == b.samples + concat_all(chunks),
        b.after_appends(chunks, times).samples.len() == b.samples.len() + total_len(chunks),
        b.after_appends(chunks, times).user_id == b.user_id,
        concat_all(chunks).len() == total_len(chunks),
    decreases chunks.len(),
{
    if chunks.len() > 0 {
        lemma_appends_accumulate(b, chunks.drop_last(), times.drop_last());
        assert(b.after_appends(chunks, times).samples =~= b.samples + concat_all(chunks));
    } else {
        assert(b.samples + concat_all(chunks) =~= b.samples);
    }
}

/// A buffer whose last activity lies no longer back than the silence
/// threshold is not ready, whatever it holds.
pub proof fn lemma_not_ready_within_silence(
    b: BufferView,
    silence_ms: u64,
    min_samples: usize,
    now_ms: i64,
)
    requires
        b.elapsed_ms(now_ms) <= silence_ms,
    ensures
        !b.ready(silence_ms, min_samples, now_ms),
{
}

/// A buffer shorter than the minimum is never ready, however long the
/// silence; a ready buffer has both the silence and the length.
pub proof fn lemma_ready_needs_silence_and_length(
    b: BufferView,
    silence_ms: u64,
    min_samples: usize,
    now_ms: i64,
)
    ensures
        b.samples.len() < min_samples ==> !b.ready(silence_ms, min_samples, now_ms),
        b.ready(silence_ms, min_samples, now_ms) ==> b.elapsed_ms(now_ms) > silence_ms
            && b.samples.len() >= min_samples,
{
}

impl View for TranslationBuffer {
    type V = BufferView;

    open spec fn view(&self) -> BufferView {
        BufferView {
            user_id: self.user_id,
            samples: self.samples@,
            last_activity: self.last_activity,
            is_speaking: self.is_speaking,
        }
    }
}

impl TranslationBuffer {
    /// An empty buffer owned by `user_id`, created at `now_ms`.
    pub fn new(user_id: SpeakerId, now_ms: i64) -> (b: Self)
        ensures
            b@ == BufferView::fresh(user_id, now_ms),
    {
        TranslationBuffer { user_id, samples: Vec::new(), last_activity: now_ms, is_speaking: false }
    }

    /// Appends `samples`, records `now_ms` as the last activity and marks the
    /// speaker as speaking.
    pub fn add_samples(&mut self, samples: &[i16], now_ms: i64)
        ensures
            final(self)@ == old(self)@.appended(samples@, now_ms),
            final(self)@.samples.len() == old(self)@.samples.len() + samples@.len(),
    {
        self.samples.extend_from_slice(samples);
        self.last_activity = now_ms;
        self.is_speaking = true;
        assert(self.samples@ =~= old(self).samples@ + samples@);
    }

    /// Marks the speaker as silent; the samples stay.
    pub fn mark_silence(&mut self)
        ensures
            final(self)@ == old(self)@.silenced(),
    {
        self.is_speaking = false;
    }

    /// Whether the buffer holds a complete utterance at `now_ms`.
    pub fn should_flush(&self, silence_duration_ms: u64, min_samples: usize, now_ms: i64) -> (r:
        bool)
        ensures
            r == self@.ready(silence_duration_ms, min_samples, now_ms),
            now_ms - self.last_activity <= silence_duration_ms ==> !r,
            self.samples@.len() < min_samples ==> !r,
            r ==> now_ms - self.last_activity > silence_duration_ms && self.samples@.len()
                >= min_samples,
    {
        let elapsed: i128 = now_ms as i128 - self.last_activity as i128;
        elapsed > silence_duration_ms as i128 && self.samples.len() >= min_samples
    }

    /// Whether at least `min_samples` samples have accumulated.
    pub fn has_minimum_duration(&self, min_samples: usize) -> (r: bool)
        ensures
            r == (self.samples@.len() >= min_samples),
    {
        self.samples.len() >= min_samples
    }

    /// Drops the samples and marks the speaker as silent.
    pub fn clear(&mut self)
        ensures
            final(self)@ == old(self)@.cleared(),
    {
        self.samples.clear();
        self.is_speaking = false;
    }

    /// Takes the accumulated samples out, leaving the buffer empty.
    pub fn flush(&mut self) -> (taken: Vec<i16>)
        ensures
            taken@ == old(self)@.samples,
            final(self)@ == old(self)@.cleared(),
    {
        let mut taken: Vec<i16> = Vec::new();
        std::mem::swap(&mut self.samples, &mut taken);
        self.is_speaking = false;
        taken
    }
}

} // verus!
