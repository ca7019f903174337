//! The registry of sessions: at most one per scope, of either mode.

use vstd::prelude::*;
use crate::events::{tick_views, VoiceEvent};
use crate::buffer::{MIN_SAMPLES, SILENCE_MS};
use crate::pipeline::{sweep_step, SweepStep};
use crate::recording::{
    artifact_views, capture_image, capture_tick, drained_in, pending_views, Artifact,
    FinalizeError,
    RecordingManager, RecordingSession, RecordingSessionView, VoiceReceiveHandler,
};
use crate::ids::{ChannelId, GuildId, SpeakerId, StreamId};
use crate::wav::{stamp_text, too_long_for_wav, STAMP_PATTERN};
use crate::translation::{
    swept_from, translate_tick, SessionError, TranslationManager, TranslationPair,
    TranslationSession, TranslationSessionView, VoiceTranslateHandler,
};

verus! {

/// What an active session does with the audio it hears.
#[derive(Debug, Clone, Copy, PartialEq, Eq)]
pub enum SessionMode {
    /// Audio is kept until the session ends and then stored.
    Capturing,
    /// Audio is cut into utterances that are translated while it runs.
    Translating,
}

/// What `stop` found for a scope.
pub enum StoppedSession {
    /// The scope had no session. This is an outcome, not a failure.
    NoSession,
    /// The capture session that was active.
    Capturing(RecordingSession),
    /// The translation session that was active.
    Translating(TranslationSession),
}

/// The sessions of all scopes. A scope is idle or has exactly one session:
/// [`SessionRegistry::exclusive`] holds of every registry that `new` made and
/// the methods below changed.
pub struct SessionRegistry {
    recordings: RecordingManager,
    translations: TranslationManager,
}

impl SessionRegistry {
    /// The capture sessions by scope.
    pub closed spec fn captures(&self) -> Map<GuildId, RecordingSessionView> {
        self.recordings@
    }

    /// The translation sessions by scope.
    pub closed spec fn translations(&self) -> Map<GuildId, TranslationSessionView> {
        self.translations@
    }

    /// The directory under which capture sessions name their artifacts.
    pub closed spec fn output_dir(&self) -> Seq<char> {
        self.recordings.output_dir@
    }

    /// The mode of the session of `scope`, `None` for an idle scope.
    pub open spec fn mode_of(&self, scope: GuildId) -> Option<SessionMode> {
        if self.captures().contains_key(scope) {
            Some(SessionMode::Capturing)
        } else if self.translations().contains_key(scope) {
            Some(SessionMode::Translating)
        } else {
            None
        }
    }

    /// No scope has a session of each mode.
    pub open spec fn exclusive(&self) -> bool {
        forall|scope: GuildId|
            !(#[trigger] self.captures().contains_key(scope) && self.translations().contains_key(
                scope,
            ))
    }

    /// A registry in which every scope is idle.
    pub fn new(output_dir: String) -> (r: Self)
        ensures
            r.captures() == Map::<GuildId, RecordingSessionView>::empty(),
            r.translations() == Map::<GuildId, TranslationSessionView>::empty(),
            r.output_dir() == output_dir@,
            r.exclusive(),
    {
        SessionRegistry {
            recordings: RecordingManager::new(output_dir),
            translations: TranslationManager::new(),
        }
    }

    /// Starts a capture session for `scope`, which must be idle.
    pub fn start_capture(&mut self, scope: GuildId, origin: ChannelId, now_ms: i64) -> (r: Result<
        (),
        SessionError,
    >)
        requires
            old(self).exclusive(),
        ensures
            final(self).exclusive(),
            final(self).output_dir() == old(self).output_dir(),
            final(self).translations() == old(self).translations(),
            old(self).mode_of(scope) is Some ==> r == Err::<(), SessionError>(
                SessionError::AlreadyActive,
            ) && final(self).captures() == old(self).captures(),
            old(self).mode_of(scope) is None ==> r is Ok && final(self).captures() == old(self).captures().insert(
                scope,
                RecordingSessionView::fresh(scope, origin, old(self).output_dir(), now_ms),
            ),
    {
        if self.translations.is_translating(scope) {
            return Err(SessionError::AlreadyActive);
        }
        self.recordings.start_recording(scope, origin, now_ms)
    }

    /// Starts a translation session for `scope`, which must be idle.
    pub fn start_translation(
        &mut self,
        scope: GuildId,
        origin: ChannelId,
        pair: TranslationPair,
        now_ms: i64,
    ) -> (r: Result<(), SessionError>)
        requires
            old(self).exclusive(),
        ensures
            final(self).exclusive(),
            final(self).output_dir() == old(self).output_dir(),
            final(self).captures() == old(self).captures(),
            old(self).mode_of(scope) is Some ==> r == Err::<(), SessionError>(
                SessionError::AlreadyActive,
            ) && final(self).translations() == old(self).translations(),
            old(self).mode_of(scope) is None ==> r is Ok && final(self).translations() == old(self).translations().insert(
                scope,
                TranslationSessionView::fresh(
                    scope,
                    origin,
                    pair.source_lang@,
                    pair.target_lang@,
                    now_ms,
                ),
            ),
    {
        if self.recordings.is_recording(scope) {
            return Err(SessionError::AlreadyActive);
        }
        self.translations.start_translation(scope, origin, pair, now_ms)
    }

    /// Starts a session of `mode` for `scope`. A translation session starts
    /// with the pair Japanese to English. A scope that already has a session,
    /// of either mode, keeps it untouched and the request fails.
    pub fn start(&mut self, scope: GuildId, origin: ChannelId, mode: SessionMode, now_ms: i64) -> (r:
        Result<(), SessionError>)
        requires
            old(self).exclusive(),
        ensures
            final(self).exclusive(),
            final(self).output_dir() == old(self).output_dir(),
            old(self).mode_of(scope) is Some ==> r == Err::<(), SessionError>(
                SessionError::AlreadyActive,
            ) && final(self).captures() == old(self).captures() && final(self).translations()
                == old(self).translations(),
            old(self).mode_of(scope) is None ==> r is Ok && final(self).mode_of(scope) == Some(mode),
            old(self).mode_of(scope) is None && mode == SessionMode::Capturing ==> final(self).translations() == old(self).translations() && final(self).captures() == old(self).captures().insert(
                scope,
                RecordingSessionView::fresh(scope, origin, old(self).output_dir(), now_ms),
            ),
            old(self).mode_of(scope) is None && mode == SessionMode::Translating ==> final(self).captures() == old(self).captures() && final(self).translations() == old(self).translations().insert(
                scope,
                TranslationSessionView::fresh(scope, origin, "ja"@, "en"@, now_ms),
            ),
    {
        match mode {
            SessionMode::Capturing => self.start_capture(scope, origin, now_ms),
            SessionMode::Translating => {
                let pair = TranslationPair::new("ja", "en");
                self.start_translation(scope, origin, pair, now_ms)
            },
        }
    }

    /// Ends the session of `scope` and hands it out. The scope is idle
    /// afterwards; the caller finalizes what it got, once.
    pub fn stop(&mut self, scope: GuildId) -> (r: StoppedSession)
        requires
            old(self).exclusive(),
        ensures
            final(self).exclusive(),
            final(self).output_dir() == old(self).output_dir(),
            final(self).mode_of(scope) is None,
            final(self).captures() == old(self).captures().remove(scope),
            final(self).translations() == old(self).translations().remove(scope),
            match r {
                StoppedSession::NoSession => old(self).mode_of(scope) is None,
                StoppedSession::Capturing(s) => old(self).mode_of(scope) == Some(
                    SessionMode::Capturing,
                ) && s@ == old(self).captures()[scope],
                StoppedSession::Translating(s) => old(self).mode_of(scope) == Some(
                    SessionMode::Translating,
                ) && s@ == old(self).translations()[scope],
            },
    {
        match self.recordings.stop_recording(scope) {
            Some(s) => {
                assert(self.translations@.remove(scope) =~= self.translations@);
                StoppedSession::Capturing(s)
            },
            None => {
                match self.translations.stop_translation(scope) {
                    Some(s) => StoppedSession::Translating(s),
                    None => StoppedSession::NoSession,
                }
            },
        }
    }

    /// Whether `scope` has a session.
    pub fn is_active(&self, scope: GuildId) -> (r: bool)
        ensures
            r == self.mode_of(scope) is Some,
    {
        self.recordings.is_recording(scope) || self.translations.is_translating(scope)
    }

    /// The mode of the session of `scope`, `None` for an idle scope.
    pub fn active_mode(&self, scope: GuildId) -> (r: Option<SessionMode>)
        ensures
            r == self.mode_of(scope),
    {
        if self.recordings.is_recording(scope) {
            Some(SessionMode::Capturing)
        } else if self.translations.is_translating(scope) {
            Some(SessionMode::Translating)
        } else {
            None
        }
    }

    /// The capture sessions.
    pub fn recorder(&self) -> (m: &RecordingManager)
        ensures
            m@ == self.captures(),
            m.output_dir@ == self.output_dir(),
    {
        &self.recordings
    }

    /// The translation sessions.
    pub fn translator(&self) -> (m: &TranslationManager)
        ensures
            m@ == self.translations(),
    {
        &self.translations
    }

    /// Hands a transport event to the capture sessions through `handler`:
    /// an attribution with a speaker updates the table of the handler, a
    /// tick feeds every attributed, non-empty frame to the session of the
    /// handler's guild, everything else changes nothing.
    pub fn capture_event(&mut self, handler: &mut VoiceReceiveHandler, ctx: &VoiceEvent)
        requires
            old(self).exclusive(),
        ensures
            final(self).exclusive(),
            final(self).output_dir() == old(self).output_dir(),
            final(self).translations() == old(self).translations(),
            final(self).captures().dom() == old(self).captures().dom(),
            final(handler).guild_id == old(handler).guild_id,
            final(handler).audio_buffers == old(handler).audio_buffers,
            final(handler).ssrc_to_user@ == (match *ctx {
                VoiceEvent::SpeakingStateUpdate { ssrc, user_id: Some(user) } => old(handler).ssrc_to_user@.insert(ssrc, user),
                _ => old(handler).ssrc_to_user@,
            }),
            final(self).captures() == (match *ctx {
                VoiceEvent::VoiceTick { speaking } => capture_tick(
                    old(self).captures(),
                    old(handler).guild_id,
                    old(handler).ssrc_to_user@,
                    tick_views(speaking@),
                ),
                _ => old(self).captures(),
            }),
    {
        handler.act(&mut self.recordings, ctx);
        proof {
            assert forall|k: GuildId| #[trigger]
                self.captures().contains_key(k) implies old(self).captures().contains_key(k) by {
                assert(old(self).captures().dom().contains(k));
            }
        }
    }

    /// Hands a transport event received at `now_ms` to the translation
    /// sessions through `handler`: an attribution with a speaker updates the
    /// table of the handler, a tick is applied frame by frame to the session
    /// of the handler's guild, everything else changes nothing.
    pub fn translate_event(
        &mut self,
        handler: &mut VoiceTranslateHandler,
        ctx: &VoiceEvent,
        now_ms: i64,
    )
        requires
            old(self).exclusive(),
        ensures
            final(self).exclusive(),
            final(self).output_dir() == old(self).output_dir(),
            final(self).captures() == old(self).captures(),
            final(self).translations().dom() == old(self).translations().dom(),
            final(handler).guild_id == old(handler).guild_id,
            final(handler).ssrc_to_user@ == (match *ctx {
                VoiceEvent::SpeakingStateUpdate { ssrc, user_id: Some(user) } => old(handler).ssrc_to_user@.insert(ssrc, user),
                _ => old(handler).ssrc_to_user@,
            }),
            final(self).translations() == (match *ctx {
                VoiceEvent::VoiceTick { speaking } => translate_tick(
                    old(self).translations(),
                    old(handler).guild_id,
                    old(handler).ssrc_to_user@,
                    tick_views(speaking@),
                    now_ms,
                ),
                _ => old(self).translations(),
            }),
    {
        handler.act(&mut self.translations, ctx, now_ms);
        proof {
            assert forall|k: GuildId| #[trigger]
                self.captures().contains_key(k) implies !self.translations().contains_key(k) by {
                if self.translations().contains_key(k) {
                    assert(self.translations().dom().contains(k));
                    assert(old(self).translations().dom().contains(k));
                    assert(old(self).translations().contains_key(k));
                    assert(old(self).captures().contains_key(k));
                }
            }
        }
    }

    /// One turn of the sweep loop for the translation session of `scope` at
    /// `now_ms`: the loop ends where the scope has no such session, else the
    /// ready utterances are handed out and their buffers emptied.
    pub fn sweep_step(&mut self, scope: GuildId, now_ms: i64) -> (step: SweepStep)
        requires
            old(self).exclusive(),
        ensures
            final(self).exclusive(),
            final(self).output_dir() == old(self).output_dir(),
            final(self).captures() == old(self).captures(),
            !old(self).translations().contains_key(scope) ==> step is Stop && final(self).translations() == old(self).translations(),
            old(self).translations().contains_key(scope) ==> (step matches SweepStep::Dispatch {
                utterances,
                sleep_ms,
            } && swept_from(
                old(self).translations()[scope],
                utterances@,
                SILENCE_MS,
                MIN_SAMPLES,
                now_ms,
            ) && final(self).translations() == old(self).translations().insert(
                scope,
                old(self).translations()[scope].after_sweep(SILENCE_MS, MIN_SAMPLES, now_ms),
            )),
    {
        let step = sweep_step(&mut self.translations, scope, now_ms);
        proof {
            assert forall|k: GuildId| #[trigger]
                self.captures().contains_key(k) implies !self.translations().contains_key(k) by {
                if self.translations().contains_key(k) {
                    assert(old(self).translations().contains_key(k));
                    assert(old(self).captures().contains_key(k));
                }
            }
        }
        step
    }

    /// Moves the audio that `handler` held back into the capture session of
    /// `scope`: each non-empty buffer whose stream has a speaker is appended
    /// under that speaker, the others are dropped. The map of the handler
    /// decides the order of the streams.
    pub fn flush_held_audio(&mut self, scope: GuildId, handler: &mut VoiceReceiveHandler)
        requires
            old(self).exclusive(),
        ensures
            final(self).exclusive(),
            final(self).output_dir() == old(self).output_dir(),
            final(self).translations() == old(self).translations(),
            final(self).captures().dom() == old(self).captures().dom(),
            final(handler).guild_id == old(handler).guild_id,
            final(handler).ssrc_to_user == old(handler).ssrc_to_user,
            final(handler).audio_buffers@.len() == 0,
            exists|order: Seq<StreamId>|
                #![trigger order.no_duplicates()]
                order.no_duplicates() && order.to_set() == old(handler).audio_buffers@.dom()
                    && final(self).captures() == drained_in(
                    old(self).captures(),
                    scope,
                    pending_views(old(handler).audio_buffers@),
                    old(handler).ssrc_to_user@,
                    order,
                ),
    {
        self.recordings.flush_audio_buffers(scope, handler);
        proof {
            assert forall|k: GuildId| #[trigger]
                self.captures().contains_key(k) implies old(self).captures().contains_key(k) by {
                assert(old(self).captures().dom().contains(k));
            }
        }
    }
}

impl StoppedSession {
    /// The artifacts of a stopped session under `output_dir`. Only a capture
    /// session has any: the buffers of a translation session are discarded.
    pub fn finalize(&self, output_dir: &str) -> (r: Result<Vec<Artifact>, FinalizeError>)
        ensures
            match *self {
                StoppedSession::Capturing(s) => (r is Ok <==> s@.can_finalize()) && (match r {
                    Ok(list) => s@.finalized_as(artifact_views(list@), output_dir@),
                    Err(FinalizeError::Timestamp) => stamp_text(STAMP_PATTERN@, s.start_time) is None && exists|
                        speaker: SpeakerId,
                    | #[trigger] s@.writes(speaker),
                    Err(FinalizeError::TooLong { speaker }) => s@.writes(speaker)
                        && too_long_for_wav(s@.buffers[speaker].len()),
                    Err(FinalizeError::Encoding { speaker }) => s@.writes(speaker)
                        && !too_long_for_wav(s@.buffers[speaker].len()) && capture_image(s@.buffers[speaker]) is None,
                }),
                _ => r matches Ok(list) && list@.len() == 0,
            },
    {
        match self {
            StoppedSession::Capturing(s) => s.finalize(output_dir),
            _ => Ok(Vec::new()),
        }
    }
}

} // verus!
