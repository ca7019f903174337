//! Capture sessions: per-speaker buffers that are turned into one WAVE
//! artifact each when the session is finalized.

use vstd::prelude::*;
use std::collections::HashMap;
use crate::attribution::SpeakerAttributor;
use crate::events::{tick_views, TickEntryView, VoiceEvent};
use crate::ids::{ChannelId, GuildId, SpeakerId, StreamId};
use crate::maps::{key_list, lemma_not_yet_visited, lemma_take_step};
use crate::text::{decimal, push_decimal};
use crate::translation::SessionError;
use crate::wav::{
    encode_wav, format_stamp, header_bytes, sample_bytes, stamp_text, too_long_for_wav,
    wav_encoding, CAPTURE_BITS, CAPTURE_CHANNELS, CAPTURE_RATE, STAMP_PATTERN,
};

verus! {

/// One serialized buffer: where it is to be stored, whose it is, and its
/// WAVE image (mono, 16-bit PCM, 48 kHz).
#[derive(Debug)]
pub struct Artifact {
    pub path: String,
    pub speaker: SpeakerId,
    pub bytes: Vec<u8>,
}

/// Mathematical value of an [`Artifact`].
pub struct ArtifactView {
    pub path: Seq<char>,
    pub speaker: SpeakerId,
    pub bytes: Seq<u8>,
}

impl View for Artifact {
    type V = ArtifactView;

    open spec fn view(&self) -> ArtifactView {
        ArtifactView { path: self.path@, speaker: self.speaker, bytes: self.bytes@ }
    }
}

/// The artifacts of `v`, each by its value.
pub open spec fn artifact_views(v: Seq<Artifact>) -> Seq<ArtifactView> {
    Seq::new(v.len(), |i: int| v[i]@)
}

/// Why a capture session could not be serialized.
#[derive(Debug, Clone, Copy, PartialEq, Eq)]
pub enum FinalizeError {
    /// The start time of the session is no calendar instant.
    Timestamp,
    /// The buffer of this speaker exceeds what one WAVE image can hold.
    TooLong { speaker: SpeakerId },
    /// The encoder reported an error for the buffer of this speaker.
    Encoding { speaker: SpeakerId },
}

/// The image of captured audio: mono, 16-bit integer samples, 48 kHz.
pub open spec fn capture_image(samples: Seq<i16>) -> Option<Seq<u8>> {
    wav_encoding(CAPTURE_CHANNELS, CAPTURE_RATE, CAPTURE_BITS, false, samples)
}

/// The file extension of an artifact.
pub open spec fn wav_suffix() -> Seq<char> {
    seq!['.', 'w', 'a', 'v']
}

/// The name of an artifact: directory, then scope, speaker and time stamp
/// joined by underscores.
pub open spec fn artifact_path(
    dir: Seq<char>,
    guild_id: GuildId,
    speaker: SpeakerId,
    stamp: Seq<char>,
) -> Seq<char> {
    dir + seq!['/'] + decimal(guild_id as nat) + seq!['_'] + decimal(speaker as nat) + seq!['_']
        + stamp + wav_suffix()
}

/// Builds the name of an artifact.
pub fn make_artifact_path(dir: &str, guild_id: GuildId, speaker: SpeakerId, stamp: &str) -> (path:
    String)
    ensures
        path@ == artifact_path(dir@, guild_id, speaker, stamp@),
{
    let mut path = String::new();
    path.append(dir);
    path.push('/');
    push_decimal(&mut path, guild_id);
    path.push('_');
    push_decimal(&mut path, speaker);
    path.push('_');
    path.append(stamp);
    path.push('.');
    path.push('w');
    path.push('a');
    path.push('v');
    assert(path@ =~= artifact_path(dir@, guild_id, speaker, stamp@));
    path
}

/// A capture session of one guild.
pub struct RecordingSession {
    pub guild_id: GuildId,
    pub channel_id: ChannelId,
    pub start_time: i64,
    pub speaker_buffers: HashMap<SpeakerId, Vec<i16>>,
    pub output_dir: String,
}

/// Mathematical value of a [`RecordingSession`].
pub struct RecordingSessionView {
    pub guild_id: GuildId,
    pub channel_id: ChannelId,
    pub start_time: i64,
    pub buffers: Map<SpeakerId, Seq<i16>>,
    pub output_dir: Seq<char>,
}

/// The buffers of a hash map, each as a sequence.
pub open spec fn sample_views(m: Map<SpeakerId, Vec<i16>>) -> Map<SpeakerId, Seq<i16>> {
    Map::new(|k: SpeakerId| m.contains_key(k), |k: SpeakerId| m[k]@)
}

impl RecordingSessionView {
    /// A session that has recorded nothing yet.
    pub open spec fn fresh(
        guild_id: GuildId,
        channel_id: ChannelId,
        output_dir: Seq<char>,
        now_ms: i64,
    ) -> Self {
        RecordingSessionView {
            guild_id,
            channel_id,
            start_time: now_ms,
            buffers: Map::empty(),
            output_dir,
        }
    }

    /// The session after `chunk` of `speaker` arrived.
    pub open spec fn with_audio(self, speaker: SpeakerId, chunk: Seq<i16>) -> Self {
        let before = if self.buffers.contains_key(speaker) {
            self.buffers[speaker]
        } else {
            Seq::empty()
        };
        RecordingSessionView { buffers: self.buffers.insert(speaker, before + chunk), ..self }
    }

    /// Whether `speaker` gets an artifact: the buffer exists and is not empty.
    pub open spec fn writes(self, speaker: SpeakerId) -> bool {
        self.buffers.contains_key(speaker) && self.buffers[speaker].len() > 0
    }

    /// Whether the buffer of `speaker` can be serialized.
    pub open spec fn serializable(self, speaker: SpeakerId) -> bool {
        &&& stamp_text(STAMP_PATTERN@, self.start_time) is Some
        &&& !too_long_for_wav(self.buffers[speaker].len())
        &&& capture_image(self.buffers[speaker]) is Some
    }

    /// Whether every buffer that gets an artifact can be serialized.
    pub open spec fn can_finalize(self) -> bool {
        forall|speaker: SpeakerId| #[trigger] self.writes(speaker) ==> self.serializable(speaker)
    }

    /// The artifact of `speaker` under `dir`.
    pub open spec fn artifact_of(self, speaker: SpeakerId, dir: Seq<char>) -> ArtifactView {
        ArtifactView {
            path: artifact_path(dir, self.guild_id, speaker, stamp_text(STAMP_PATTERN@, self.start_time).unwrap()),
            speaker,
            bytes: capture_image(self.buffers[speaker]).unwrap(),
        }
    }

    /// The artifacts of a walk over the speakers in `order`: one for each
    /// non-empty buffer, none for an empty one.
    pub open spec fn artifacts_in(self, order: Seq<SpeakerId>, dir: Seq<char>) -> Seq<ArtifactView>
        decreases order.len(),
    {
        if order.len() == 0 {
            Seq::empty()
        } else {
            let before = self.artifacts_in(order.drop_last(), dir);
            if self.writes(order.last()) {
                before.push(self.artifact_of(order.last(), dir))
            } else {
                before
            }
        }
    }

    /// `order` visits every buffer of the session exactly once.
    pub open spec fn visits_all(self, order: Seq<SpeakerId>) -> bool {
        order.no_duplicates() && order.to_set() == self.buffers.dom()
    }

    /// What `list` must be after the session was serialized under `dir`: the
    /// artifacts of some walk over all buffers. The map decides the order.
    pub open spec fn finalized_as(self, list: Seq<ArtifactView>, dir: Seq<char>) -> bool {
        exists|order: Seq<SpeakerId>|
            #![trigger self.visits_all(order)]
            self.visits_all(order) && list == self.artifacts_in(order, dir)
    }
}

/// A walk over speakers yields at most one artifact per speaker visited, and
/// none when no visited buffer holds samples.
pub proof fn lemma_artifacts_bounded(
    s: RecordingSessionView,
    order: Seq<SpeakerId>,
    dir: Seq<char>,
)
    ensures
        s.artifacts_in(order, dir).len() <= order.len(),
        (forall|i: int| 0 <= i < order.len() ==> !s.writes(#[trigger] order[i]))
            ==> s.artifacts_in(order, dir).len() == 0,
    decreases order.len(),
{
    if order.len() > 0 {
        lemma_artifacts_bounded(s, order.drop_last(), dir);
        if forall|i: int| 0 <= i < order.len() ==> !s.writes(#[trigger] order[i]) {
            assert forall|i: int| 0 <= i < order.drop_last().len() implies !s.writes(
                #[trigger] order.drop_last()[i],
            ) by {
                assert(order.drop_last()[i] == order[i]);
            }
            assert(!s.writes(order[order.len() - 1]));
        }
    }
}

/// A session in which no buffer holds samples is serialized to the empty
/// list, whatever else is true of it.
pub proof fn lemma_nothing_recorded_nothing_written(
    s: RecordingSessionView,
    list: Seq<ArtifactView>,
    dir: Seq<char>,
)
    requires
        forall|speaker: SpeakerId| !s.writes(speaker),
        s.finalized_as(list, dir),
    ensures
        s.can_finalize(),
        list.len() == 0,
{
    let order = choose|order: Seq<SpeakerId>|
        #![trigger s.visits_all(order)]
        s.visits_all(order) && list == s.artifacts_in(order, dir);
    lemma_artifacts_bounded(s, order, dir);
}

impl View for RecordingSession {
    type V = RecordingSessionView;

    open spec fn view(&self) -> RecordingSessionView {
        RecordingSessionView {
            guild_id: self.guild_id,
            channel_id: self.channel_id,
            start_time: self.start_time,
            buffers: sample_views(self.speaker_buffers@),
            output_dir: self.output_dir@,
        }
    }
}

impl RecordingSession {
    /// A session started at `now_ms` that has recorded nothing yet.
    pub fn new(guild_id: GuildId, channel_id: ChannelId, output_dir: &str, now_ms: i64) -> (s:
        Self)
        ensures
            s@ == RecordingSessionView::fresh(guild_id, channel_id, output_dir@, now_ms),
    {
        let s = RecordingSession {
            guild_id,
            channel_id,
            start_time: now_ms,
            speaker_buffers: HashMap::new(),
            output_dir: output_dir.to_owned(),
        };
        assert(s@.buffers =~= Map::empty());
        s
    }

    /// Appends `samples` to the buffer of `speaker_id`, creating the buffer
    /// on the first frame.
    pub fn add_audio(&mut self, speaker_id: SpeakerId, samples: &[i16])
        ensures
            final(self)@ == old(self)@.with_audio(speaker_id, samples@),
    {
        broadcast use vstd::std_specs::hash::group_hash_axioms;

        let mut buffer = match self.speaker_buffers.remove(&speaker_id) {
            Some(b) => b,
            None => Vec::new(),
        };
        let ghost before = buffer@;
        buffer.extend_from_slice(samples);
        assert(buffer@ =~= before + samples@);
        self.speaker_buffers.insert(speaker_id, buffer);
        assert(self@.buffers =~= old(self)@.with_audio(speaker_id, samples@).buffers);
    }

    /// Serializes every non-empty buffer to one artifact named under
    /// `output_dir`. Nothing is written to storage: the caller stores the
    /// images. The first buffer that cannot be serialized ends the walk with
    /// its error.
    pub fn finalize(&self, output_dir: &str) -> (r: Result<Vec<Artifact>, FinalizeError>)
        ensures
            r is Ok <==> self@.can_finalize(),
            match r {
                Ok(list) => self@.finalized_as(artifact_views(list@), output_dir@),
                Err(FinalizeError::Timestamp) => stamp_text(STAMP_PATTERN@, self.start_time) is None && exists|
                    speaker: SpeakerId,
                | #[trigger] self@.writes(speaker),
                Err(FinalizeError::TooLong { speaker }) => self@.writes(speaker)
                    && too_long_for_wav(self@.buffers[speaker].len()),
                Err(FinalizeError::Encoding { speaker }) => self@.writes(speaker)
                    && !too_long_for_wav(self@.buffers[speaker].len()) && capture_image(self@.buffers[speaker]) is None,
            },
            (forall|speaker: SpeakerId| !self@.writes(speaker)) ==> r is Ok && r.unwrap()@.len()
                == 0,
    {
        broadcast use vstd::std_specs::hash::group_hash_axioms;

        let keys = key_list(&self.speaker_buffers);
        let stamp = format_stamp(STAMP_PATTERN, self.start_time);
        let ghost me = self@;
        assert(me.buffers.dom() =~= self.speaker_buffers@.dom());
        let mut list: Vec<Artifact> = Vec::new();
        let mut i: usize = 0;
        while i < keys.len()
            invariant
                0 <= i <= keys@.len(),
                me == self@,
                me.visits_all(keys@),
                match stamp {
                    Some(text) => stamp_text(STAMP_PATTERN@, self.start_time) == Some(text@),
                    None => stamp_text(STAMP_PATTERN@, self.start_time) is None,
                },
                artifact_views(list@) == me.artifacts_in(keys@.take(i as int), output_dir@),
                forall|j: int|
                    0 <= j < i && me.writes(#[trigger] keys@[j]) ==> me.serializable(keys@[j]),
            decreases keys@.len() - i,
        {
            let speaker = keys[i];
            let ghost list_before = list@;
            proof {
                assert(keys@.to_set().contains(speaker));
                lemma_take_step(keys@, i as int, speaker);
            }
            match self.speaker_buffers.get(&speaker) {
                Some(samples) => {
                    assert(samples@ == me.buffers[speaker]);
                    if samples.len() > 0 {
                        let text = match &stamp {
                            Some(text) => text,
                            None => {
                                assert(me.writes(speaker) && !me.serializable(speaker));
                                return Err(FinalizeError::Timestamp);
                            },
                        };
                        if samples.len() > 0x7fff_ffed {
                            assert(me.writes(speaker) && !me.serializable(speaker));
                            return Err(FinalizeError::TooLong { speaker });
                        }
                        proof {
                            assert(sample_bytes(CAPTURE_BITS) == 2);
                            assert(header_bytes(CAPTURE_CHANNELS, CAPTURE_BITS) == 36);
                            assert(samples@.len() * 2 + 36 <= u32::MAX);
                        }
                        let bytes = match encode_wav(
                            CAPTURE_CHANNELS,
                            CAPTURE_RATE,
                            CAPTURE_BITS,
                            false,
                            samples,
                        ) {
                            Ok(bytes) => bytes,
                            Err(_) => {
                                assert(me.writes(speaker) && !me.serializable(speaker));
                                return Err(FinalizeError::Encoding { speaker });
                            },
                        };
                        let path = make_artifact_path(
                            output_dir,
                            self.guild_id,
                            speaker,
                            text.as_str(),
                        );
                        let artifact = Artifact { path, speaker, bytes };
                        assert(artifact@ == me.artifact_of(speaker, output_dir@));
                        list.push(artifact);
                        assert(artifact_views(list@) =~= artifact_views(list_before).push(
                            artifact@,
                        ));
                    }
                },
                None => {},
            }
            i = i + 1;
        }
        proof {
            assert(keys@.take(i as int) =~= keys@);
            assert forall|speaker: SpeakerId| #[trigger] me.writes(speaker) implies me.serializable(
                speaker,
            ) by {
                assert(keys@.to_set().contains(speaker));
                let j = choose|j: int| 0 <= j < keys@.len() && keys@[j] == speaker;
                assert(me.writes(keys@[j]));
            }
            if forall|speaker: SpeakerId| !me.writes(speaker) {
                lemma_artifacts_bounded(me, keys@, output_dir@);
            }
        }
        Ok(list)
    }
}

/// The sessions of a hash map, each by its value.
pub open spec fn recording_views(m: Map<GuildId, RecordingSession>) -> Map<
    GuildId,
    RecordingSessionView,
> {
    Map::new(|g: GuildId| m.contains_key(g), |g: GuildId| m[g]@)
}

/// The sessions after one frame of a tick reached the session of `guild_id`.
/// A frame without audio, with no samples, of a stream without a speaker, or
/// for a guild without a session is dropped.
pub open spec fn capture_frame(
    sessions: Map<GuildId, RecordingSessionView>,
    guild_id: GuildId,
    speakers: Map<StreamId, SpeakerId>,
    entry: TickEntryView,
) -> Map<GuildId, RecordingSessionView> {
    match entry.audio {
        Some(chunk) => if chunk.len() > 0 && speakers.contains_key(entry.ssrc)
            && sessions.contains_key(guild_id) {
            sessions.insert(
                guild_id,
                sessions[guild_id].with_audio(speakers[entry.ssrc], chunk),
            )
        } else {
            sessions
        },
        None => sessions,
    }
}

/// A frame of a stream without a speaker is dropped, whatever else the
/// tick holds: it leaves every session as it was.
pub proof fn lemma_unattributed_frame_is_dropped(
    sessions: Map<GuildId, RecordingSessionView>,
    guild_id: GuildId,
    speakers: Map<StreamId, SpeakerId>,
    entry: TickEntryView,
)
    requires
        !speakers.contains_key(entry.ssrc),
    ensures
        capture_frame(sessions, guild_id, speakers, entry) == sessions,
{
}

/// The sessions after every frame of a tick, in order.
pub open spec fn capture_tick(
    sessions: Map<GuildId, RecordingSessionView>,
    guild_id: GuildId,
    speakers: Map<StreamId, SpeakerId>,
    entries: Seq<TickEntryView>,
) -> Map<GuildId, RecordingSessionView>
    decreases entries.len(),
{
    if entries.len() == 0 {
        sessions
    } else {
        capture_frame(
            capture_tick(sessions, guild_id, speakers, entries.drop_last()),
            guild_id,
            speakers,
            entries.last(),
        )
    }
}

/// The sessions after the pending buffers of the streams in `order` were
/// handed to the session of `guild_id`, each under the speaker of its stream.
pub open spec fn drained_in(
    sessions: Map<GuildId, RecordingSessionView>,
    guild_id: GuildId,
    pending: Map<StreamId, Seq<i16>>,
    speakers: Map<StreamId, SpeakerId>,
    order: Seq<StreamId>,
) -> Map<GuildId, RecordingSessionView>
    decreases order.len(),
{
    if order.len() == 0 {
        sessions
    } else {
        let before = drained_in(sessions, guild_id, pending, speakers, order.drop_last());
        let k = order.last();
        if pending.contains_key(k) && pending[k].len() > 0 && speakers.contains_key(k)
            && before.contains_key(guild_id) {
            before.insert(guild_id, before[guild_id].with_audio(speakers[k], pending[k]))
        } else {
            before
        }
    }
}

/// The pending buffers of a hash map, each as a sequence.
pub open spec fn pending_views(m: Map<StreamId, Vec<i16>>) -> Map<StreamId, Seq<i16>> {
    Map::new(|k: StreamId| m.contains_key(k), |k: StreamId| m[k]@)
}

/// Receiver of transport events for a capture session.
pub struct VoiceReceiveHandler {
    pub guild_id: GuildId,
    /// Audio held back per stream until it is flushed into the session.
    pub audio_buffers: HashMap<StreamId, Vec<i16>>,
    pub ssrc_to_user: SpeakerAttributor,
}

/// The capture sessions that are active, at most one per guild.
pub struct RecordingManager {
    pub output_dir: String,
    pub active_sessions: HashMap<GuildId, RecordingSession>,
}

impl View for RecordingManager {
    type V = Map<GuildId, RecordingSessionView>;

    open spec fn view(&self) -> Map<GuildId, RecordingSessionView> {
        recording_views(self.active_sessions@)
    }
}

impl RecordingManager {
    /// A manager without sessions whose artifacts go under `output_dir`.
    pub fn new(output_dir: String) -> (m: Self)
        ensures
            m@ == Map::<GuildId, RecordingSessionView>::empty(),
            m.output_dir@ == output_dir@,
    {
        let m = RecordingManager { output_dir, active_sessions: HashMap::new() };
        assert(m@ =~= Map::empty());
        m
    }

    /// Starts a session for `guild_id`. A guild that already has one keeps
    /// it, untouched, and the request fails.
    pub fn start_recording(&mut self, guild_id: GuildId, channel_id: ChannelId, now_ms: i64) -> (r:
        Result<(), SessionError>)
        ensures
            final(self).output_dir == old(self).output_dir,
            old(self)@.contains_key(guild_id) ==> r == Err::<(), SessionError>(
                SessionError::AlreadyActive,
            ) && final(self)@ == old(self)@,
            !old(self)@.contains_key(guild_id) ==> r is Ok && final(self)@ == old(self)@.insert(
                guild_id,
                RecordingSessionView::fresh(guild_id, channel_id, old(self).output_dir@, now_ms),
            ),
    {
        broadcast use vstd::std_specs::hash::group_hash_axioms;

        if self.active_sessions.contains_key(&guild_id) {
            return Err(SessionError::AlreadyActive);
        }
        let session = RecordingSession::new(
            guild_id,
            channel_id,
            self.output_dir.as_str(),
            now_ms,
        );
        self.active_sessions.insert(guild_id, session);
        assert(self@ =~= old(self)@.insert(guild_id, session@));
        Ok(())
    }

    /// Ends the session of `guild_id` and hands it out; `None` when the
    /// guild has no session.
    pub fn stop_recording(&mut self, guild_id: GuildId) -> (r: Option<RecordingSession>)
        ensures
            final(self).output_dir == old(self).output_dir,
            final(self)@ == old(self)@.remove(guild_id),
            match r {
                Some(s) => old(self)@.contains_key(guild_id) && s@ == old(self)@[guild_id],
                None => !old(self)@.contains_key(guild_id),
            },
    {
        broadcast use vstd::std_specs::hash::group_hash_axioms;

        let r = self.active_sessions.remove(&guild_id);
        assert(self@ =~= old(self)@.remove(guild_id));
        r
    }

    /// Feeds a frame to the session of `guild_id`; without a session the
    /// frame is dropped.
    pub fn add_audio_to_session(&mut self, guild_id: GuildId, speaker_id: SpeakerId, samples: &[i16])
        ensures
            final(self).output_dir == old(self).output_dir,
            final(self)@ == (if old(self)@.contains_key(guild_id) {
                old(self)@.insert(guild_id, old(self)@[guild_id].with_audio(speaker_id, samples@))
            } else {
                old(self)@
            }),
    {
        broadcast use vstd::std_specs::hash::group_hash_axioms;

        match self.active_sessions.remove(&guild_id) {
            Some(s) => {
                let mut session = s;
                session.add_audio(speaker_id, samples);
                self.active_sessions.insert(guild_id, session);
                assert(self@ =~= old(self)@.insert(guild_id, session@));
            },
            None => {
                assert(self@ =~= old(self)@);
            },
        }
    }

    /// Whether `guild_id` has a session.
    pub fn is_recording(&self, guild_id: GuildId) -> (r: bool)
        ensures
            r == self@.contains_key(guild_id),
    {
        broadcast use vstd::std_specs::hash::group_hash_axioms;

        self.active_sessions.contains_key(&guild_id)
    }

    /// Empties the buffers that `handler` held back: each non-empty one
    /// whose stream has a speaker goes into the session of `guild_id`, the
    /// others are dropped. The map decides the order of the streams.
    pub fn flush_audio_buffers(&mut self, guild_id: GuildId, handler: &mut VoiceReceiveHandler)
        ensures
            final(self).output_dir == old(self).output_dir,
            final(handler).guild_id == old(handler).guild_id,
            final(handler).ssrc_to_user == old(handler).ssrc_to_user,
            final(handler).audio_buffers@.len() == 0,
            final(self)@.dom() == old(self)@.dom(),
            exists|order: Seq<StreamId>|
                #![trigger order.no_duplicates()]
                order.no_duplicates() && order.to_set() == old(handler).audio_buffers@.dom()
                    && final(self)@ == drained_in(
                    old(self)@,
                    guild_id,
                    pending_views(old(handler).audio_buffers@),
                    old(handler).ssrc_to_user@,
                    order,
                ),
    {
        broadcast use vstd::std_specs::hash::group_hash_axioms;

        let keys = key_list(&handler.audio_buffers);
        let ghost pending = pending_views(handler.audio_buffers@);
        let ghost speakers = handler.ssrc_to_user@;
        let ghost start = self@;
        let mut i: usize = 0;
        while i < keys.len()
            invariant
                0 <= i <= keys@.len(),
                keys@.no_duplicates(),
                keys@.to_set() == old(handler).audio_buffers@.dom(),
                pending == pending_views(old(handler).audio_buffers@),
                speakers == old(handler).ssrc_to_user@,
                start == old(self)@,
                self@.dom() =~= start.dom(),
                self.output_dir == old(self).output_dir,
                handler.guild_id == old(handler).guild_id,
                handler.ssrc_to_user == old(handler).ssrc_to_user,
                handler.audio_buffers@.dom().finite(),
                forall|k: StreamId|
                    handler.audio_buffers@.contains_key(k) <==> (old(
                        handler,
                    ).audio_buffers@.contains_key(k) && !keys@.take(i as int).contains(k)),
                forall|k: StreamId| #[trigger]
                    handler.audio_buffers@.contains_key(k) ==> handler.audio_buffers@[k] == old(
                        handler,
                    ).audio_buffers@[k],
                self@ == drained_in(start, guild_id, pending, speakers, keys@.take(i as int)),
            decreases keys@.len() - i,
        {
            let ssrc = keys[i];
            proof {
                assert(keys@.to_set().contains(ssrc));
                lemma_take_step(keys@, i as int, ssrc);
                lemma_not_yet_visited(keys@, i as int);
            }
            let ghost held_before = handler.audio_buffers@;
            match handler.audio_buffers.remove(&ssrc) {
                Some(buffer) => {
                    assert(buffer@ == pending[ssrc]);
                    if buffer.len() > 0 {
                        match handler.ssrc_to_user.lookup(ssrc) {
                            Some(user_id) => {
                                self.add_audio_to_session(guild_id, user_id, buffer.as_slice());
                            },
                            None => {},
                        }
                    }
                },
                None => {},
            }
            proof {
                assert forall|k: StreamId|
                    handler.audio_buffers@.contains_key(k) <==> (old(
                        handler,
                    ).audio_buffers@.contains_key(k) && !keys@.take(i + 1).contains(k)) by {
                    lemma_take_step(keys@, i as int, k);
                }
            }
            i = i + 1;
        }
        proof {
            assert(keys@.take(i as int) =~= keys@);
            assert forall|k: StreamId| !handler.audio_buffers@.contains_key(k) by {
                if old(handler).audio_buffers@.contains_key(k) {
                    assert(keys@.to_set().contains(k));
                }
            }
            assert(handler.audio_buffers@.dom() =~= Set::empty());
            assert(handler.audio_buffers@.len() == 0);
        }
    }
}

impl VoiceReceiveHandler {
    /// A handler for the capture session of `guild_id` that knows no stream.
    pub fn new(guild_id: GuildId) -> (h: Self)
        ensures
            h.guild_id == guild_id,
            h.audio_buffers@ == Map::<StreamId, Vec<i16>>::empty(),
            h.ssrc_to_user@ == Map::<StreamId, SpeakerId>::empty(),
    {
        VoiceReceiveHandler {
            guild_id,
            audio_buffers: HashMap::new(),
            ssrc_to_user: SpeakerAttributor::new(),
        }
    }

    /// Reacts to one transport event. An attribution with a speaker updates
    /// the table; a tick feeds every attributed, non-empty frame to the
    /// session of the handler's guild; everything else changes nothing.
    pub fn act(&mut self, manager: &mut RecordingManager, ctx: &VoiceEvent)
        ensures
            final(self).guild_id == old(self).guild_id,
            final(self).audio_buffers == old(self).audio_buffers,
            final(manager).output_dir == old(manager).output_dir,
            final(manager)@.dom() == old(manager)@.dom(),
            final(self).ssrc_to_user@ == (match *ctx {
                VoiceEvent::SpeakingStateUpdate { ssrc, user_id: Some(user) } => old(
                    self,
                ).ssrc_to_user@.insert(ssrc, user),
                _ => old(self).ssrc_to_user@,
            }),
            final(manager)@ == (match *ctx {
                VoiceEvent::VoiceTick { speaking } => capture_tick(
                    old(manager)@,
                    old(self).guild_id,
                    old(self).ssrc_to_user@,
                    tick_views(speaking@),
                ),
                _ => old(manager)@,
            }),
    {
        match ctx {
            VoiceEvent::SpeakingStateUpdate { ssrc, user_id } => {
                match user_id {
                    Some(user) => {
                        self.ssrc_to_user.attribute(*ssrc, *user);
                    },
                    None => {},
                }
            },
            VoiceEvent::VoiceTick { speaking } => {
                let ghost entries = tick_views(speaking@);
                let ghost start = manager@;
                let mut i: usize = 0;
                while i < speaking.len()
                    invariant
                        0 <= i <= speaking@.len(),
                        entries == tick_views(speaking@),
                        start == old(manager)@,
                        self == old(self),
                        manager.output_dir == old(manager).output_dir,
                        manager@.dom() =~= old(manager)@.dom(),
                        manager@ == capture_tick(
                            start,
                            self.guild_id,
                            self.ssrc_to_user@,
                            entries.take(i as int),
                        ),
                    decreases speaking@.len() - i,
                {
                    proof {
                        assert(entries.take(i + 1).drop_last() =~= entries.take(i as int));
                        assert(entries.take(i + 1).last() == speaking@[i as int]@);
                    }
                    let entry = &speaking[i];
                    match &entry.decoded_voice {
                        Some(audio) => {
                            if audio.len() > 0 {
                                match self.ssrc_to_user.lookup(entry.ssrc) {
                                    Some(user_id) => {
                                        manager.add_audio_to_session(
                                            self.guild_id,
                                            user_id,
                                            audio.as_slice(),
                                        );
                                    },
                                    None => {},
                                }
                            }
                        },
                        None => {},
                    }
                    i = i + 1;
                }
                assert(entries.take(i as int) =~= entries);
            },
            VoiceEvent::ClientDisconnect { user_id } => {},
            VoiceEvent::Other => {},
        }
    }
}

} // verus!
