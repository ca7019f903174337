//! Live-translation sessions: one buffer per speaker, the attribution of
//! streams to speakers, and the periodic sweep that cuts utterances out of
//! the buffers.

use vstd::prelude::*;
use std::collections::HashMap;
use crate::attribution::SpeakerAttributor;
use crate::buffer::{BufferView, TranslationBuffer, MIN_SAMPLES, SILENCE_MS};
use crate::events::{tick_views, TickEntryView, VoiceEvent};
use crate::ids::{ChannelId, GuildId, SpeakerId, StreamId};
use crate::maps::{key_list, lemma_not_yet_visited, lemma_take_step};

verus! {

/// Source and target language of a session.
#[derive(Debug, Clone)]
pub struct TranslationPair {
    pub source_lang: String,
    pub target_lang: String,
}

impl TranslationPair {
    pub fn new(source: &str, target: &str) -> (p: Self)
        ensures
            p.source_lang@ == source@,
            p.target_lang@ == target@,
    {
        TranslationPair { source_lang: source.to_owned(), target_lang: target.to_owned() }
    }
}

/// Outcome of a session-control request that could not be honoured.
#[derive(Debug, Clone, Copy, PartialEq, Eq)]
pub enum SessionError {
    /// The scope already has a session, of either mode.
    AlreadyActive,
}

/// One utterance as the sweep hands it out: the speaker and the samples.
pub type Utterance = (SpeakerId, Vec<i16>);

/// The utterances of `v` with their samples as sequences.
pub open spec fn utterances(v: Seq<Utterance>) -> Seq<(SpeakerId, Seq<i16>)> {
    Seq::new(v.len(), |i: int| (v[i].0, v[i].1@))
}

/// A live-translation session of one guild.
pub struct TranslationSession {
    pub guild_id: GuildId,
    pub channel_id: ChannelId,
    pub translation_pair: TranslationPair,
    pub start_time: i64,
    /// One buffer per speaker.
    pub speaker_buffers: HashMap<SpeakerId, TranslationBuffer>,
    /// Stream to speaker.
    pub ssrc_to_user: SpeakerAttributor,
}

/// Mathematical value of a [`TranslationSession`].
pub struct TranslationSessionView {
    pub guild_id: GuildId,
    pub channel_id: ChannelId,
    pub source_lang: Seq<char>,
    pub target_lang: Seq<char>,
    pub start_time: i64,
    pub buffers: Map<SpeakerId, BufferView>,
    pub speakers: Map<StreamId, SpeakerId>,
}

impl TranslationSessionView {
    /// A session that has heard nothing yet.
    pub open spec fn fresh(
        guild_id: GuildId,
        channel_id: ChannelId,
        source_lang: Seq<char>,
        target_lang: Seq<char>,
        now_ms: i64,
    ) -> Self {
        TranslationSessionView {
            guild_id,
            channel_id,
            source_lang,
            target_lang,
            start_time: now_ms,
            buffers: Map::empty(),
            speakers: Map::empty(),
        }
    }

    /// Every buffer names as its owner the speaker it is filed under. The
    /// sessions that [`TranslationSession::new`] makes have this, and every
    /// method keeps it; the sweep does not depend on it.
    pub open spec fn owned(self) -> bool {
        forall|speaker: SpeakerId| #[trigger]
            self.buffers.contains_key(speaker) ==> self.buffers[speaker].user_id == speaker
    }

    /// The buffer that audio of `stream` goes to, if the stream has a
    /// speaker and that speaker a buffer.
    pub open spec fn buffer_of(self, stream: StreamId) -> Option<SpeakerId> {
        if self.speakers.contains_key(stream) && self.buffers.contains_key(self.speakers[stream]) {
            Some(self.speakers[stream])
        } else {
            None
        }
    }

    /// The session after a frame of `stream`, spoken by `speaker`, arrived:
    /// the stream belongs to `speaker` from now on, and the frame is appended
    /// to the buffer of `speaker`, whatever stream it came by.
    pub open spec fn with_audio(
        self,
        stream: StreamId,
        speaker: SpeakerId,
        chunk: Seq<i16>,
        now_ms: i64,
    ) -> Self {
        let before = if self.buffers.contains_key(speaker) {
            self.buffers[speaker]
        } else {
            BufferView::fresh(speaker, now_ms)
        };
        TranslationSessionView {
            buffers: self.buffers.insert(speaker, before.appended(chunk, now_ms)),
            speakers: self.speakers.insert(stream, speaker),
            ..self
        }
    }

    /// The session after a tick without audio for `stream`: the speaker of
    /// the stream is marked as silent.
    pub open spec fn with_silence(self, stream: StreamId) -> Self {
        match self.buffer_of(stream) {
            Some(speaker) => TranslationSessionView {
                buffers: self.buffers.insert(speaker, self.buffers[speaker].silenced()),
                ..self
            },
            None => self,
        }
    }

    /// The session after the buffer of the speaker of `stream` was taken.
    pub open spec fn flushed(self, stream: StreamId) -> Self {
        match self.buffer_of(stream) {
            Some(speaker) => TranslationSessionView {
                buffers: self.buffers.insert(speaker, self.buffers[speaker].cleared()),
                ..self
            },
            None => self,
        }
    }

    /// Whether a sweep at `now_ms` cuts an utterance out of the buffer of
    /// `speaker`: the buffer exists and is ready.
    pub open spec fn emits(
        self,
        speaker: SpeakerId,
        silence_ms: u64,
        min_samples: usize,
        now_ms: i64,
    ) -> bool {
        &&& self.buffers.contains_key(speaker)
        &&& self.buffers[speaker].ready(silence_ms, min_samples, now_ms)
    }

    /// The session after a sweep: every emitting buffer is cleared, every
    /// other buffer is untouched.
    pub open spec fn after_sweep(self, silence_ms: u64, min_samples: usize, now_ms: i64) -> Self {
        TranslationSessionView {
            buffers: Map::new(
                |k: SpeakerId| self.buffers.contains_key(k),
                |k: SpeakerId|
                    if self.emits(k, silence_ms, min_samples, now_ms) {
                        self.buffers[k].cleared()
                    } else {
                        self.buffers[k]
                    },
            ),
            ..self
        }
    }

    /// What a sweep that visits the buffers in `order` hands out: for each
    /// emitting buffer the speaker it is filed under and all its samples.
    pub open spec fn emitted(
        self,
        order: Seq<SpeakerId>,
        silence_ms: u64,
        min_samples: usize,
        now_ms: i64,
    ) -> Seq<(SpeakerId, Seq<i16>)>
        decreases order.len(),
    {
        if order.len() == 0 {
            Seq::empty()
        } else {
            let before = self.emitted(order.drop_last(), silence_ms, min_samples, now_ms);
            let k = order.last();
            if self.emits(k, silence_ms, min_samples, now_ms) {
                before.push((k, self.buffers[k].samples))
            } else {
                before
            }
        }
    }

    /// `order` visits every buffer of the session exactly once.
    pub open spec fn visits_all(self, order: Seq<SpeakerId>) -> bool {
        order.no_duplicates() && order.to_set() == self.buffers.dom()
    }
}

/// What `ready` must be after a sweep over `before`: the utterances of some
/// visit of all buffers. The map decides the order of the visit.
pub open spec fn swept_from(
    before: TranslationSessionView,
    ready: Seq<Utterance>,
    silence_ms: u64,
    min_samples: usize,
    now_ms: i64,
) -> bool {
    exists|order: Seq<SpeakerId>|
        #![trigger before.visits_all(order)]
        before.visits_all(order) && utterances(ready) == before.emitted(
            order,
            silence_ms,
            min_samples,
            now_ms,
        )
}

/// Buffers stay with their owners: a frame leaves every buffer filed under
/// its owner, and so do silence, a flush and a sweep.
pub proof fn lemma_owners_are_kept(
    s: TranslationSessionView,
    stream: StreamId,
    speaker: SpeakerId,
    chunk: Seq<i16>,
    silence_ms: u64,
    min_samples: usize,
    now_ms: i64,
)
    requires
        s.owned(),
    ensures
        s.with_audio(stream, speaker, chunk, now_ms).owned(),
        s.with_silence(stream).owned(),
        s.flushed(stream).owned(),
        s.after_sweep(silence_ms, min_samples, now_ms).owned(),
{
}

/// A stream that passes from one speaker to another mixes nothing: the
/// frame heard under `first` is in the buffer of `first`, the frame heard
/// under `second` in the buffer of `second`, and neither buffer holds
/// anything of the other frame.
pub proof fn lemma_reattribution_keeps_speakers_apart(
    s: TranslationSessionView,
    stream: StreamId,
    first: SpeakerId,
    second: SpeakerId,
    v: Seq<i16>,
    w: Seq<i16>,
    t1: i64,
    t2: i64,
)
    requires
        first != second,
        s.owned(),
    ensures
        ({
            let after = s.with_audio(stream, first, v, t1).with_audio(stream, second, w, t2);
            let had_first = if s.buffers.contains_key(first) {
                s.buffers[first].samples
            } else {
                Seq::<i16>::empty()
            };
            let had_second = if s.buffers.contains_key(second) {
                s.buffers[second].samples
            } else {
                Seq::<i16>::empty()
            };
            &&& after.owned()
            &&& after.speakers[stream] == second
            &&& after.buffers[first].user_id == first
            &&& after.buffers[first].samples == had_first + v
            &&& after.buffers[second].user_id == second
            &&& after.buffers[second].samples == had_second + w
        }),
{
    let mid = s.with_audio(stream, first, v, t1);
    let after = mid.with_audio(stream, second, w, t2);
    if !s.buffers.contains_key(first) {
        assert(Seq::<i16>::empty() + v =~= v);
        assert(BufferView::fresh(first, t1).samples + v =~= Seq::<i16>::empty() + v);
    }
    if !s.buffers.contains_key(second) {
        assert(BufferView::fresh(second, t2).samples + w =~= Seq::<i16>::empty() + w);
    }
}

/// An utterance is handed out once: with a minimum length above zero, no
/// buffer emits right after a sweep, at the same instant and with the same
/// thresholds, and a second walk in any order hands out nothing.
pub proof fn lemma_sweep_leaves_nothing_ready(
    s: TranslationSessionView,
    order: Seq<SpeakerId>,
    silence_ms: u64,
    min_samples: usize,
    now_ms: i64,
)
    requires
        min_samples > 0,
    ensures
        forall|speaker: SpeakerId|
            !(#[trigger] s.after_sweep(silence_ms, min_samples, now_ms).emits(
                speaker,
                silence_ms,
                min_samples,
                now_ms,
            )),
        s.after_sweep(silence_ms, min_samples, now_ms).emitted(
            order,
            silence_ms,
            min_samples,
            now_ms,
        ).len() == 0,
    decreases order.len(),
{
    let after = s.after_sweep(silence_ms, min_samples, now_ms);
    assert forall|speaker: SpeakerId|
        !(#[trigger] after.emits(speaker, silence_ms, min_samples, now_ms)) by {
        if after.buffers.contains_key(speaker) && s.emits(
            speaker,
            silence_ms,
            min_samples,
            now_ms,
        ) {
            assert(after.buffers[speaker].samples.len() == 0);
        }
    }
    if order.len() > 0 {
        lemma_sweep_leaves_nothing_ready(s, order.drop_last(), silence_ms, min_samples, now_ms);
    }
}

/// Whether `utterance` is the whole buffer of a speaker that `order` visits
/// and that emits, under that speaker.
pub open spec fn is_buffer_of(
    s: TranslationSessionView,
    order: Seq<SpeakerId>,
    utterance: (SpeakerId, Seq<i16>),
    silence_ms: u64,
    min_samples: usize,
    now_ms: i64,
) -> bool {
    exists|j: int|
        0 <= j < order.len() && s.emits(#[trigger] order[j], silence_ms, min_samples, now_ms)
            && utterance == (order[j], s.buffers[order[j]].samples)
}

/// A walk hands out at most one utterance per buffer it visits, and each
/// one is the whole buffer of one speaker under that speaker: nothing is
/// cut, nothing is made up, and no speaker gets the audio of another. This
/// holds of every session, whatever the owners its buffers name.
pub proof fn lemma_emitted_utterances(
    s: TranslationSessionView,
    order: Seq<SpeakerId>,
    silence_ms: u64,
    min_samples: usize,
    now_ms: i64,
)
    ensures
        s.emitted(order, silence_ms, min_samples, now_ms).len() <= order.len(),
        forall|i: int|
            0 <= i < s.emitted(order, silence_ms, min_samples, now_ms).len() ==> is_buffer_of(
                s,
                order,
                #[trigger] s.emitted(order, silence_ms, min_samples, now_ms)[i],
                silence_ms,
                min_samples,
                now_ms,
            ),
    decreases order.len(),
{
    if order.len() > 0 {
        let shorter = order.drop_last();
        lemma_emitted_utterances(s, shorter, silence_ms, min_samples, now_ms);
        let before = s.emitted(shorter, silence_ms, min_samples, now_ms);
        let all = s.emitted(order, silence_ms, min_samples, now_ms);
        assert forall|i: int| 0 <= i < all.len() implies is_buffer_of(
            s,
            order,
            #[trigger] all[i],
            silence_ms,
            min_samples,
            now_ms,
        ) by {
            if i < before.len() {
                assert(all[i] == before[i]);
                assert(is_buffer_of(s, shorter, before[i], silence_ms, min_samples, now_ms));
                let j = choose|j: int|
                    0 <= j < shorter.len() && s.emits(
                        #[trigger] shorter[j],
                        silence_ms,
                        min_samples,
                        now_ms,
                    ) && before[i] == (shorter[j], s.buffers[shorter[j]].samples);
                assert(order[j] == shorter[j]);
            } else {
                let j = order.len() - 1;
                assert(s.emits(order[j], silence_ms, min_samples, now_ms));
                assert(all[i] == (order[j], s.buffers[order[j]].samples));
            }
        }
    }
}

/// The buffers of a hash map, each by its value.
pub open spec fn buffer_views(m: Map<SpeakerId, TranslationBuffer>) -> Map<SpeakerId, BufferView> {
    Map::new(|k: SpeakerId| m.contains_key(k), |k: SpeakerId| m[k]@)
}

impl View for TranslationSession {
    type V = TranslationSessionView;

    open spec fn view(&self) -> TranslationSessionView {
        TranslationSessionView {
            guild_id: self.guild_id,
            channel_id: self.channel_id,
            source_lang: self.translation_pair.source_lang@,
            target_lang: self.translation_pair.target_lang@,
            start_time: self.start_time,
            buffers: buffer_views(self.speaker_buffers@),
            speakers: self.ssrc_to_user@,
        }
    }
}

impl TranslationSession {
    /// A session started at `now_ms` that has heard nothing yet.
    pub fn new(
        guild_id: GuildId,
        channel_id: ChannelId,
        translation_pair: TranslationPair,
        now_ms: i64,
    ) -> (s: Self)
        ensures
            s@ == TranslationSessionView::fresh(
                guild_id,
                channel_id,
                translation_pair.source_lang@,
                translation_pair.target_lang@,
                now_ms,
            ),
            s@.owned(),
    {
        let s = TranslationSession {
            guild_id,
            channel_id,
            translation_pair,
            start_time: now_ms,
            speaker_buffers: HashMap::new(),
            ssrc_to_user: SpeakerAttributor::new(),
        };
        assert(s@.buffers =~= Map::empty());
        s
    }

    /// Records that `ssrc` belongs to `user_id` and appends `samples` to the
    /// buffer of `user_id`, creating the buffer on the first frame of that
    /// speaker.
    pub fn add_audio(&mut self, ssrc: StreamId, user_id: SpeakerId, samples: &[i16], now_ms: i64)
        ensures
            final(self)@ == old(self)@.with_audio(ssrc, user_id, samples@, now_ms),
            old(self)@.owned() ==> final(self)@.owned(),
    {
        broadcast use vstd::std_specs::hash::group_hash_axioms;

        self.ssrc_to_user.attribute(ssrc, user_id);
        let mut buffer = match self.speaker_buffers.remove(&user_id) {
            Some(b) => b,
            None => TranslationBuffer::new(user_id, now_ms),
        };
        buffer.add_samples(samples, now_ms);
        self.speaker_buffers.insert(user_id, buffer);
        assert(self@.buffers =~= old(self)@.with_audio(ssrc, user_id, samples@, now_ms).buffers);
    }

    /// Marks the speaker of `ssrc` as silent, if the stream has a speaker
    /// and the speaker a buffer.
    pub fn mark_silence(&mut self, ssrc: StreamId)
        ensures
            final(self)@ == old(self)@.with_silence(ssrc),
            old(self)@.owned() ==> final(self)@.owned(),
    {
        broadcast use vstd::std_specs::hash::group_hash_axioms;

        match self.ssrc_to_user.lookup(ssrc) {
            Some(speaker) => {
                match self.speaker_buffers.remove(&speaker) {
                    Some(b) => {
                        let mut buffer = b;
                        buffer.mark_silence();
                        self.speaker_buffers.insert(speaker, buffer);
                    },
                    None => {},
                }
            },
            None => {},
        }
        assert(self@.buffers =~= old(self)@.with_silence(ssrc).buffers);
    }

    /// Takes the samples of the speaker of `ssrc` out. A stream without a
    /// speaker, or whose speaker has no buffer, gives an empty result.
    pub fn flush(&mut self, ssrc: StreamId) -> (taken: Vec<i16>)
        ensures
            final(self)@ == old(self)@.flushed(ssrc),
            old(self)@.owned() ==> final(self)@.owned(),
            taken@ == (match old(self)@.buffer_of(ssrc) {
                Some(speaker) => old(self)@.buffers[speaker].samples,
                None => Seq::<i16>::empty(),
            }),
    {
        broadcast use vstd::std_specs::hash::group_hash_axioms;

        let taken = match self.ssrc_to_user.lookup(ssrc) {
            Some(speaker) => {
                match self.speaker_buffers.remove(&speaker) {
                    Some(b) => {
                        let mut buffer = b;
                        let taken = buffer.flush();
                        self.speaker_buffers.insert(speaker, buffer);
                        taken
                    },
                    None => Vec::new(),
                }
            },
            None => Vec::new(),
        };
        assert(self@.buffers =~= old(self)@.flushed(ssrc).buffers);
        taken
    }

    /// One sweep with the given thresholds: every ready buffer is handed out
    /// as one utterance of the speaker it is filed under, and emptied.
    pub fn sweep(&mut self, silence_ms: u64, min_samples: usize, now_ms: i64) -> (ready: Vec<
        Utterance,
    >)
        ensures
            final(self)@ == old(self)@.after_sweep(silence_ms, min_samples, now_ms),
            old(self)@.owned() ==> final(self)@.owned(),
            swept_from(old(self)@, ready@, silence_ms, min_samples, now_ms),
    {
        broadcast use vstd::std_specs::hash::group_hash_axioms;

        let keys = key_list(&self.speaker_buffers);
        let ghost before = self@;
        assert(before.buffers.dom() =~= self.speaker_buffers@.dom());
        let mut ready: Vec<Utterance> = Vec::new();
        let mut i: usize = 0;
        while i < keys.len()
            invariant
                0 <= i <= keys@.len(),
                before == old(self)@,
                before.visits_all(keys@),
                self.guild_id == old(self).guild_id,
                self.channel_id == old(self).channel_id,
                self.translation_pair == old(self).translation_pair,
                self.start_time == old(self).start_time,
                self.ssrc_to_user == old(self).ssrc_to_user,
                self@.buffers.dom() == before.buffers.dom(),
                forall|k: SpeakerId| #[trigger]
                    before.buffers.contains_key(k) ==> self@.buffers[k] == (if keys@.take(
                        i as int,
                    ).contains(k) && before.emits(k, silence_ms, min_samples, now_ms) {
                        before.buffers[k].cleared()
                    } else {
                        before.buffers[k]
                    }),
                utterances(ready@) == before.emitted(
                    keys@.take(i as int),
                    silence_ms,
                    min_samples,
                    now_ms,
                ),
            decreases keys@.len() - i,
        {
            let k = keys[i];
            let ghost mid = self@;
            let ghost ready_before = ready@;
            proof {
                assert(keys@.to_set().contains(k));
                lemma_not_yet_visited(keys@, i as int);
                lemma_take_step(keys@, i as int, k);
            }
            match self.speaker_buffers.remove(&k) {
                Some(b) => {
                    let mut buffer = b;
                    assert(buffer@ == before.buffers[k]);
                    if buffer.should_flush(silence_ms, min_samples, now_ms) {
                        let taken = buffer.flush();
                        ready.push((k, taken));
                        assert(utterances(ready@) =~= utterances(ready_before).push((k, taken@)));
                    }
                    self.speaker_buffers.insert(k, buffer);
                },
                None => {},
            }
            proof {
                assert(self@.buffers.dom() =~= before.buffers.dom());
                assert forall|j: SpeakerId| #[trigger]
                    before.buffers.contains_key(j) implies self@.buffers[j] == (if keys@.take(
                    i + 1,
                ).contains(j) && before.emits(j, silence_ms, min_samples, now_ms) {
                    before.buffers[j].cleared()
                } else {
                    before.buffers[j]
                }) by {
                    lemma_take_step(keys@, i as int, j);
                    if j != k {
                        assert(self@.buffers[j] == mid.buffers[j]);
                    }
                }
            }
            i = i + 1;
        }
        proof {
            assert(keys@.take(i as int) =~= keys@);
            assert(self@.buffers =~= before.after_sweep(silence_ms, min_samples, now_ms).buffers)
                by {
                assert forall|k: SpeakerId| #[trigger]
                    before.buffers.contains_key(k) implies keys@.contains(k) by {
                    assert(keys@.to_set().contains(k));
                }
            }
        }
        ready
    }

    /// The periodic sweep with the default thresholds.
    pub fn get_ready_buffers(&mut self, now_ms: i64) -> (ready: Vec<Utterance>)
        ensures
            final(self)@ == old(self)@.after_sweep(SILENCE_MS, MIN_SAMPLES, now_ms),
            old(self)@.owned() ==> final(self)@.owned(),
            swept_from(old(self)@, ready@, SILENCE_MS, MIN_SAMPLES, now_ms),
    {
        self.sweep(SILENCE_MS, MIN_SAMPLES, now_ms)
    }
}

/// The sessions of a hash map, each by its value.
pub open spec fn session_views(m: Map<GuildId, TranslationSession>) -> Map<
    GuildId,
    TranslationSessionView,
> {
    Map::new(|g: GuildId| m.contains_key(g), |g: GuildId| m[g]@)
}

/// The translation sessions that are active, at most one per guild.
pub struct TranslationManager {
    pub active_sessions: HashMap<GuildId, TranslationSession>,
}

impl View for TranslationManager {
    type V = Map<GuildId, TranslationSessionView>;

    open spec fn view(&self) -> Map<GuildId, TranslationSessionView> {
        session_views(self.active_sessions@)
    }
}

impl TranslationManager {
    /// A manager without sessions.
    pub fn new() -> (m: Self)
        ensures
            m@ == Map::<GuildId, TranslationSessionView>::empty(),
    {
        let m = TranslationManager { active_sessions: HashMap::new() };
        assert(m@ =~= Map::empty());
        m
    }

    /// Starts a session for `guild_id`. A guild that already has one keeps
    /// it, untouched, and the request fails.
    pub fn start_translation(
        &mut self,
        guild_id: GuildId,
        channel_id: ChannelId,
        translation_pair: TranslationPair,
        now_ms: i64,
    ) -> (r: Result<(), SessionError>)
        ensures
            old(self)@.contains_key(guild_id) ==> r == Err::<(), SessionError>(
                SessionError::AlreadyActive,
            ) && final(self)@ == old(self)@,
            !old(self)@.contains_key(guild_id) ==> r is Ok && final(self)@ == old(self)@.insert(
                guild_id,
                TranslationSessionView::fresh(
                    guild_id,
                    channel_id,
                    translation_pair.source_lang@,
                    translation_pair.target_lang@,
                    now_ms,
                ),
            ),
    {
        broadcast use vstd::std_specs::hash::group_hash_axioms;

        if self.active_sessions.contains_key(&guild_id) {
            return Err(SessionError::AlreadyActive);
        }
        let session = TranslationSession::new(guild_id, channel_id, translation_pair, now_ms);
        self.active_sessions.insert(guild_id, session);
        assert(self@ =~= old(self)@.insert(guild_id, session@));
        Ok(())
    }

    /// Ends the session of `guild_id` and hands it out; `None` when the
    /// guild has no session.
    pub fn stop_translation(&mut self, guild_id: GuildId) -> (r: Option<TranslationSession>)
        ensures
            final(self)@ == old(self)@.remove(guild_id),
            match r {
                Some(s) => old(self)@.contains_key(guild_id) && s@ == old(self)@[guild_id],
                None => !old(self)@.contains_key(guild_id),
            },
    {
        broadcast use vstd::std_specs::hash::group_hash_axioms;

        let r = self.active_sessions.remove(&guild_id);
        assert(self@ =~= old(self)@.remove(guild_id));
        r
    }

    /// Whether `guild_id` has a session.
    pub fn is_translating(&self, guild_id: GuildId) -> (r: bool)
        ensures
            r == self@.contains_key(guild_id),
    {
        broadcast use vstd::std_specs::hash::group_hash_axioms;

        self.active_sessions.contains_key(&guild_id)
    }

    /// Feeds a frame to the session of `guild_id`; without a session the
    /// frame is dropped.
    pub fn add_audio_to_session(
        &mut self,
        guild_id: GuildId,
        ssrc: StreamId,
        user_id: SpeakerId,
        samples: &[i16],
        now_ms: i64,
    )
        ensures
            final(self)@ == (if old(self)@.contains_key(guild_id) {
                old(self)@.insert(
                    guild_id,
                    old(self)@[guild_id].with_audio(ssrc, user_id, samples@, now_ms),
                )
            } else {
                old(self)@
            }),
    {
        broadcast use vstd::std_specs::hash::group_hash_axioms;

        match self.active_sessions.remove(&guild_id) {
            Some(s) => {
                let mut session = s;
                session.add_audio(ssrc, user_id, samples, now_ms);
                self.active_sessions.insert(guild_id, session);
                assert(self@ =~= old(self)@.insert(guild_id, session@));
            },
            None => {
                assert(self@ =~= old(self)@);
            },
        }
    }

    /// Marks the speaker of a stream of the session of `guild_id` as
    /// silent.
    pub fn mark_silence(&mut self, guild_id: GuildId, ssrc: StreamId)
        ensures
            final(self)@ == (if old(self)@.contains_key(guild_id) {
                old(self)@.insert(guild_id, old(self)@[guild_id].with_silence(ssrc))
            } else {
                old(self)@
            }),
    {
        broadcast use vstd::std_specs::hash::group_hash_axioms;

        match self.active_sessions.remove(&guild_id) {
            Some(s) => {
                let mut session = s;
                session.mark_silence(ssrc);
                self.active_sessions.insert(guild_id, session);
                assert(self@ =~= old(self)@.insert(guild_id, session@));
            },
            None => {
                assert(self@ =~= old(self)@);
            },
        }
    }

    /// Sweeps the session of `guild_id` with the default thresholds. A guild
    /// without a session gives no utterance.
    pub fn get_ready_translations(&mut self, guild_id: GuildId, now_ms: i64) -> (ready: Vec<
        Utterance,
    >)
        ensures
            old(self)@.contains_key(guild_id) ==> final(self)@ == old(self)@.insert(
                guild_id,
                old(self)@[guild_id].after_sweep(SILENCE_MS, MIN_SAMPLES, now_ms),
            ) && swept_from(old(self)@[guild_id], ready@, SILENCE_MS, MIN_SAMPLES, now_ms),
            !old(self)@.contains_key(guild_id) ==> final(self)@ == old(self)@ && ready@.len() == 0,
    {
        broadcast use vstd::std_specs::hash::group_hash_axioms;

        match self.active_sessions.remove(&guild_id) {
            Some(s) => {
                let mut session = s;
                let ready = session.get_ready_buffers(now_ms);
                self.active_sessions.insert(guild_id, session);
                assert(self@ =~= old(self)@.insert(guild_id, session@));
                ready
            },
            None => {
                assert(self@ =~= old(self)@);
                Vec::new()
            },
        }
    }
}

/// The sessions after one frame of a tick reached the session of
/// `guild_id`. A frame with samples of an attributed stream is appended to
/// the buffer of its speaker; an entry without audio marks the speaker of
/// its stream as silent; a frame with no samples or of a stream without a
/// speaker is dropped, as is everything for a guild without a session.
pub open spec fn translate_frame(
    sessions: Map<GuildId, TranslationSessionView>,
    guild_id: GuildId,
    speakers: Map<StreamId, SpeakerId>,
    entry: TickEntryView,
    now_ms: i64,
) -> Map<GuildId, TranslationSessionView> {
    if !sessions.contains_key(guild_id) {
        sessions
    } else {
        match entry.audio {
            Some(chunk) => if chunk.len() > 0 && speakers.contains_key(entry.ssrc) {
                sessions.insert(
                    guild_id,
                    sessions[guild_id].with_audio(
                        entry.ssrc,
                        speakers[entry.ssrc],
                        chunk,
                        now_ms,
                    ),
                )
            } else {
                sessions
            },
            None => sessions.insert(guild_id, sessions[guild_id].with_silence(entry.ssrc)),
        }
    }
}

/// A frame with audio of a stream without a speaker is dropped, whatever
/// else the tick holds: it leaves every session as it was.
pub proof fn lemma_unattributed_frame_is_dropped(
    sessions: Map<GuildId, TranslationSessionView>,
    guild_id: GuildId,
    speakers: Map<StreamId, SpeakerId>,
    entry: TickEntryView,
    now_ms: i64,
)
    requires
        entry.audio is Some,
        !speakers.contains_key(entry.ssrc),
    ensures
        translate_frame(sessions, guild_id, speakers, entry, now_ms) == sessions,
{
}

/// The sessions after every frame of a tick, in order.
pub open spec fn translate_tick(
    sessions: Map<GuildId, TranslationSessionView>,
    guild_id: GuildId,
    speakers: Map<StreamId, SpeakerId>,
    entries: Seq<TickEntryView>,
    now_ms: i64,
) -> Map<GuildId, TranslationSessionView>
    decreases entries.len(),
{
    if entries.len() == 0 {
        sessions
    } else {
        translate_frame(
            translate_tick(sessions, guild_id, speakers, entries.drop_last(), now_ms),
            guild_id,
            speakers,
            entries.last(),
            now_ms,
        )
    }
}

/// Receiver of transport events for a translation session.
pub struct VoiceTranslateHandler {
    pub guild_id: GuildId,
    pub ssrc_to_user: SpeakerAttributor,
}

impl VoiceTranslateHandler {
    /// A handler for the translation session of `guild_id` that knows no
    /// stream.
    pub fn new(guild_id: GuildId) -> (h: Self)
        ensures
            h.guild_id == guild_id,
            h.ssrc_to_user@ == Map::<StreamId, SpeakerId>::empty(),
    {
        VoiceTranslateHandler { guild_id, ssrc_to_user: SpeakerAttributor::new() }
    }

    /// Reacts to one transport event received at `now_ms`. An attribution
    /// with a speaker updates the table; a tick is applied frame by frame to
    /// the session of the handler's guild; everything else changes nothing.
    pub fn act(&mut self, manager: &mut TranslationManager, ctx: &VoiceEvent, now_ms: i64)
        ensures
            final(self).guild_id == old(self).guild_id,
            final(manager)@.dom() == old(manager)@.dom(),
            final(self).ssrc_to_user@ == (match *ctx {
                VoiceEvent::SpeakingStateUpdate { ssrc, user_id: Some(user) } => old(
                    self,
                ).ssrc_to_user@.insert(ssrc, user),
                _ => old(self).ssrc_to_user@,
            }),
            final(manager)@ == (match *ctx {
                VoiceEvent::VoiceTick { speaking } => translate_tick(
                    old(manager)@,
                    old(self).guild_id,
                    old(self).ssrc_to_user@,
                    tick_views(speaking@),
                    now_ms,
                ),
                _ => old(manager)@,
            }),
    {
        match ctx {
            VoiceEvent::SpeakingStateUpdate { ssrc, user_id } => {
                match user_id {
                    Some(user) => {
                        self.ssrc_to_user.attribute(*ssrc, *user);
                    },
                    None => {},
                }
            },
            VoiceEvent::VoiceTick { speaking } => {
                let ghost entries = tick_views(speaking@);
                let ghost start = manager@;
                let mut i: usize = 0;
                while i < speaking.len()
                    invariant
                        0 <= i <= speaking@.len(),
                        entries == tick_views(speaking@),
                        start == old(manager)@,
                        self == old(self),
                        manager@.dom() =~= old(manager)@.dom(),
                        manager@ == translate_tick(
                            start,
                            self.guild_id,
                            self.ssrc_to_user@,
                            entries.take(i as int),
                            now_ms,
                        ),
                    decreases speaking@.len() - i,
                {
                    proof {
                        assert(entries.take(i + 1).drop_last() =~= entries.take(i as int));
                        assert(entries.take(i + 1).last() == speaking@[i as int]@);
                    }
                    let entry = &speaking[i];
                    match &entry.decoded_voice {
                        Some(audio) => {
                            if audio.len() > 0 {
                                match self.ssrc_to_user.lookup(entry.ssrc) {
                                    Some(user_id) => {
                                        manager.add_audio_to_session(
                                            self.guild_id,
                                            entry.ssrc,
                                            user_id,
                                            audio.as_slice(),
                                            now_ms,
                                        );
                                    },
                                    None => {},
                                }
                            }
                        },
                        None => {
                            manager.mark_silence(self.guild_id, entry.ssrc);
                        },
                    }
                    i = i + 1;
                }
                assert(entries.take(i as int) =~= entries);
            },
            VoiceEvent::ClientDisconnect { user_id } => {},
            VoiceEvent::Other => {},
        }
    }
}

} // verus!
