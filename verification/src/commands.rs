//! What the commands of the chat platform decide: which request is
//! honoured, what changes, and what is answered. Talking to the platform is
//! left to the caller.

use vstd::prelude::*;
use std::collections::HashMap;
use crate::ids::{ChannelId, GuildId, SpeakerId};
use crate::minutes::{
    degraded_message, degraded_message_text, minutes_message, minutes_message_text,
    MeetingTranscript,
};
use crate::recording::{artifact_views, Artifact, RecordingSessionView};
use crate::registry::{SessionMode, SessionRegistry, StoppedSession};
use crate::summarizer::Summarizer;
use crate::text::{has_infix, str_contains, str_eq};
use crate::user_settings::{full_name_of, language_full_name, SettingView, UserSettingsManager};

verus! {

pub const ALREADY_RECORDING: &'static str =
    "❌ Already recording in this server. Use `/record stop` first.";

pub const RECORDING_STARTED: &'static str =
    "🔴 **Recording started!**\n\nThe bot is now ready to record. However, please note:\n• The bot needs to be in a voice channel to capture audio\n• Make sure the bot has permission to join voice channels\n• Use `/record_stop` to stop recording and generate meeting minutes";

pub const NO_ACTIVE_RECORDING: &'static str =
    "❌ No active recording found in this server. Use `/record start` first.";

pub const NO_AUDIO_CAPTURED: &'static str =
    "⚠️ **No audio detected**. The recording session was stopped but no audio data was captured.\n\nNote: Make sure the bot is in a voice channel with users speaking.";

pub const RECORDING_STOPPED: &'static str =
    "🛑 **Recording stopped!**\nProcessing audio files and generating meeting minutes...";

pub const NO_TRANSCRIPT: &'static str =
    "⚠️ **No audio detected** or transcription failed. Meeting minutes cannot be generated.\n\nNote: The recording infrastructure is set up, but audio capture requires the bot to be connected to a voice channel with proper permissions.";

/// The words by which an answer is known to announce that processing has
/// begun.
pub const STOPPED_MARK: &'static str = "Recording stopped!";

/// The directory in which the artifacts of a stopped recording are named.
pub const RECORDINGS_DIR: &'static str = "./recordings";

pub const SERVER_ONLY: &'static str = "This command can only be used in a server";

pub const RECORDING_IN_PROGRESS: &'static str =
    "Cannot start translation while recording is in progress";

pub const TRANSLATION_ACTIVE: &'static str = "Translation is already active";

pub const NOT_IN_VOICE: &'static str = "You must be in a voice channel";

pub const INVALID_VOICE_CHANNEL: &'static str = "Invalid voice channel";

pub const NO_TRANSLATION_SESSION: &'static str = "No active translation session";

pub const TRANSLATION_STOPPED: &'static str = "✅ **Translation stopped!**";

pub const TRANSLATION_STARTED: &'static str =
    "🌐 **Translation started!**\n\nUse `/translate_set <source> <target>` to configure your language pair.\n\n**Examples:**\n• `/translate_set ja ko` - Japanese to Korean\n• `/translate_set ko ja` - Korean to Japanese\n• `/translate_set en ja` - English to Japanese";

pub const UNKNOWN_USER: &'static str = "Could not identify user";

pub const SELECT_BOTH: &'static str = "Please select both source and target languages";

pub const INVALID_LANGUAGES: &'static str = "Invalid language codes. Use: ja, ko, or en";

/// An error as it is shown to the user.
pub open spec fn error_text(message: Seq<char>) -> Seq<char> {
    "❌ "@ + message
}

/// The answer that reports an error to the user.
pub fn error_response(message: &str) -> (r: String)
    ensures
        r@ == error_text(message@),
{
    let mut r = "❌ ".to_owned();
    r.append(message);
    r
}

/// The commands that control capture sessions.
pub struct RecordingCommands {
    pub sessions: SessionRegistry,
    pub summarizer: Summarizer,
}

/// What stopping a recording leads to.
#[derive(Debug)]
pub enum RecordStop {
    /// Nothing was being recorded; this is the answer.
    NoRecording { message: String },
    /// The session ended without audio; this is the answer.
    NoAudio { message: String },
    /// The session ended with these artifacts. The first answer is sent at
    /// once; the artifacts are stored, transcribed and summarized next.
    Process { artifacts: Vec<Artifact>, message: String },
}

impl RecordingCommands {
    pub fn new(sessions: SessionRegistry, summarizer: Summarizer) -> (c: Self)
        ensures
            c.sessions == sessions,
            c.summarizer == summarizer,
    {
        RecordingCommands { sessions, summarizer }
    }

    /// Starts recording in `guild_id` unless the guild has a session. The
    /// result is the answer and whether a session was started.
    pub fn handle_record_start(&mut self, guild_id: GuildId, channel_id: ChannelId, now_ms: i64) -> (r: (
        String,
        bool,
    ))
        requires
            old(self).sessions.exclusive(),
        ensures
            final(self).sessions.exclusive(),
            final(self).summarizer == old(self).summarizer,
            final(self).sessions.output_dir() == old(self).sessions.output_dir(),
            final(self).sessions.translations() == old(self).sessions.translations(),
            r.1 == (old(self).sessions.mode_of(guild_id) is None),
            match old(self).sessions.mode_of(guild_id) {
                Some(SessionMode::Capturing) => r.0@ == ALREADY_RECORDING@ && final(self).sessions.captures() == old(self).sessions.captures(),
                Some(SessionMode::Translating) => r.0@ == error_text(TRANSLATION_ACTIVE@)
                    && final(self).sessions.captures() == old(self).sessions.captures(),
                None => r.0@ == RECORDING_STARTED@ && final(self).sessions.captures() == old(self).sessions.captures().insert(
                    guild_id,
                    RecordingSessionView::fresh(
                        guild_id,
                        channel_id,
                        old(self).sessions.output_dir(),
                        now_ms,
                    ),
                ),
            },
    {
        match self.sessions.active_mode(guild_id) {
            Some(SessionMode::Capturing) => (ALREADY_RECORDING.to_owned(), false),
            Some(SessionMode::Translating) => (error_response(TRANSLATION_ACTIVE), false),
            None => match self.sessions.start_capture(guild_id, channel_id, now_ms) {
                Ok(_) => (RECORDING_STARTED.to_owned(), true),
                Err(_) => (ALREADY_RECORDING.to_owned(), false),
            },
        }
    }

    /// Stops the recording of `guild_id` and serializes what it holds. A
    /// session that cannot be serialized counts as one without audio. A
    /// translation session is not touched.
    pub fn handle_record_stop(&mut self, guild_id: GuildId) -> (r: RecordStop)
        requires
            old(self).sessions.exclusive(),
        ensures
            final(self).sessions.exclusive(),
            final(self).summarizer == old(self).summarizer,
            final(self).sessions.output_dir() == old(self).sessions.output_dir(),
            final(self).sessions.translations() == old(self).sessions.translations(),
            final(self).sessions.captures() == old(self).sessions.captures().remove(guild_id),
            !old(self).sessions.captures().contains_key(guild_id) ==> (r matches RecordStop::NoRecording {
                message,
            } && message@ == NO_ACTIVE_RECORDING@),
            old(self).sessions.captures().contains_key(guild_id) ==> ({
                let session = old(self).sessions.captures()[guild_id];
                match r {
                    RecordStop::NoRecording { .. } => false,
                    RecordStop::NoAudio { message } => message@ == NO_AUDIO_CAPTURED@ && (
                    !session.can_finalize() || session.finalized_as(Seq::empty(), RECORDINGS_DIR@)),
                    RecordStop::Process { artifacts, message } => message@ == RECORDING_STOPPED@
                        && artifacts@.len() > 0 && session.can_finalize() && session.finalized_as(
                        artifact_views(artifacts@),
                        RECORDINGS_DIR@,
                    ),
                }
            }),
    {
        match self.sessions.active_mode(guild_id) {
            Some(SessionMode::Capturing) => {},
            _ => {
                assert(old(self).sessions.captures().remove(guild_id) =~= old(self).sessions.captures());
                return RecordStop::NoRecording { message: NO_ACTIVE_RECORDING.to_owned() };
            },
        }
        match self.sessions.stop(guild_id) {
            StoppedSession::Capturing(session) => {
                assert(self.sessions.translations() =~= old(self).sessions.translations());
                match session.finalize(RECORDINGS_DIR) {
                    Ok(artifacts) => {
                        if artifacts.len() > 0 {
                            RecordStop::Process { artifacts, message: RECORDING_STOPPED.to_owned() }
                        } else {
                            assert(artifact_views(artifacts@) =~= Seq::empty());
                            RecordStop::NoAudio { message: NO_AUDIO_CAPTURED.to_owned() }
                        }
                    },
                    Err(_) => RecordStop::NoAudio { message: NO_AUDIO_CAPTURED.to_owned() },
                }
            },
            _ => RecordStop::NoRecording { message: NO_ACTIVE_RECORDING.to_owned() },
        }
    }

    /// Whether the transcript of a stopped recording goes to the
    /// summarization service: it does unless it is empty.
    pub fn wants_summary(transcript: &MeetingTranscript) -> (r: bool)
        ensures
            r == (transcript.full_transcript@.len() > 0),
    {
        !transcript.full_transcript.as_str().is_empty()
    }

    /// The final answer for a stopped recording with artifacts. `summary`
    /// is what the summarization service gave for the transcript, or the
    /// error it failed with; it is not looked at for an empty transcript.
    pub fn record_stop_answer(transcript: &MeetingTranscript, summary: Result<String, String>) -> (answer:
        String)
        ensures
            answer@ == (if transcript.full_transcript@.len() == 0 {
                NO_TRANSCRIPT@
            } else {
                match summary {
                    Ok(minutes) => minutes_message_text(minutes@),
                    Err(error) => degraded_message_text(transcript.full_transcript@, error@),
                }
            }),
    {
        if transcript.full_transcript.as_str().is_empty() {
            return NO_TRANSCRIPT.to_owned();
        }
        match summary {
            Ok(minutes) => minutes_message(minutes.as_str()),
            Err(error) => degraded_message(transcript.full_transcript.as_str(), error.as_str()),
        }
    }

    /// Whether `answer` is still to be sent: an answer that announces that
    /// processing has begun went out before.
    pub fn is_unsent(answer: &str) -> (r: bool)
        ensures
            r == !has_infix(answer@, STOPPED_MARK@),
    {
        !str_contains(answer, STOPPED_MARK)
    }
}

/// The commands that the platform knows.
#[derive(Debug, Clone, Copy, PartialEq, Eq)]
pub enum Command {
    Record,
    TranslateStart,
    TranslateStop,
    TranslateSet,
}

/// The command with this name, if there is one.
pub fn parse_command(name: &str) -> (c: Option<Command>)
    ensures
        c == (if name@ == "record"@ {
            Some(Command::Record)
        } else if name@ == "translate_start"@ {
            Some(Command::TranslateStart)
        } else if name@ == "translate_stop"@ {
            Some(Command::TranslateStop)
        } else if name@ == "translate_set"@ {
            Some(Command::TranslateSet)
        } else {
            None
        }),
{
    if str_eq(name, "record") {
        Some(Command::Record)
    } else if str_eq(name, "translate_start") {
        Some(Command::TranslateStart)
    } else if str_eq(name, "translate_stop") {
        Some(Command::TranslateStop)
    } else if str_eq(name, "translate_set") {
        Some(Command::TranslateSet)
    } else {
        None
    }
}

/// Which voice channel each user is in.
pub struct VoiceStates {
    pub channels: HashMap<SpeakerId, ChannelId>,
}

impl View for VoiceStates {
    type V = Map<SpeakerId, ChannelId>;

    open spec fn view(&self) -> Map<SpeakerId, ChannelId> {
        self.channels@
    }
}

impl VoiceStates {
    /// Nobody is in a voice channel.
    pub fn new() -> (v: Self)
        ensures
            v@ == Map::<SpeakerId, ChannelId>::empty(),
    {
        VoiceStates { channels: HashMap::new() }
    }

    /// Takes note of a voice state: a user of a guild who is in a channel
    /// is recorded there, one who is in none is forgotten. A state without
    /// a guild changes nothing.
    pub fn update(&mut self, user_id: SpeakerId, guild_id: Option<GuildId>, channel_id: Option<ChannelId>)
        ensures
            final(self)@ == (match (guild_id, channel_id) {
                (Some(_), Some(channel)) => old(self)@.insert(user_id, channel),
                (Some(_), None) => old(self)@.remove(user_id),
                (None, _) => old(self)@,
            }),
    {
        broadcast use vstd::std_specs::hash::group_hash_axioms;

        if guild_id.is_some() {
            match channel_id {
                Some(channel) => {
                    self.channels.insert(user_id, channel);
                },
                None => {
                    self.channels.remove(&user_id);
                },
            }
        }
    }

    /// The voice channel that `user_id` is in.
    pub fn channel_of(&self, user_id: SpeakerId) -> (r: Option<ChannelId>)
        ensures
            r == (if self@.contains_key(user_id) {
                Some(self@[user_id])
            } else {
                None
            }),
    {
        broadcast use vstd::std_specs::hash::group_hash_axioms;

        match self.channels.get(&user_id) {
            Some(c) => Some(*c),
            None => None,
        }
    }
}

/// What a request to start translating leads to.
#[derive(Debug)]
pub enum TranslateStart {
    /// The request is refused with this message.
    Refuse { message: String },
    /// The requester is not known: nothing is done and nothing is answered.
    Ignore,
    /// The voice channel is joined; the session starts once that succeeded.
    Join { guild_id: GuildId, channel_id: ChannelId },
}

/// Why a request to start translating is refused, if it is.
pub open spec fn start_refusal(
    guild_id: Option<GuildId>,
    recording: bool,
    translating: bool,
    user_id: Option<SpeakerId>,
    voice_channel: Option<ChannelId>,
) -> Option<Seq<char>> {
    if guild_id is None {
        Some(SERVER_ONLY@)
    } else if recording {
        Some(RECORDING_IN_PROGRESS@)
    } else if translating {
        Some(TRANSLATION_ACTIVE@)
    } else if user_id is None {
        None
    } else if voice_channel is None {
        Some(NOT_IN_VOICE@)
    } else if voice_channel == Some(0u64) {
        Some(INVALID_VOICE_CHANNEL@)
    } else {
        None
    }
}

/// Decides on a request to start translating. `recording` and
/// `translating` say whether the guild has a session of that mode;
/// `voice_channel` is the channel the requester is in.
pub fn plan_translate_start(
    guild_id: Option<GuildId>,
    recording: bool,
    translating: bool,
    user_id: Option<SpeakerId>,
    voice_channel: Option<ChannelId>,
) -> (plan: TranslateStart)
    ensures
        match start_refusal(guild_id, recording, translating, user_id, voice_channel) {
            Some(reason) => plan matches TranslateStart::Refuse { message } && message@ == reason,
            None => if user_id is None {
                plan is Ignore
            } else {
                plan matches TranslateStart::Join { guild_id: g, channel_id: c } && Some(g)
                    == guild_id && Some(c) == voice_channel
            },
        },
{
    let guild = match guild_id {
        Some(g) => g,
        None => {
            return TranslateStart::Refuse { message: SERVER_ONLY.to_owned() };
        },
    };
    if recording {
        return TranslateStart::Refuse { message: RECORDING_IN_PROGRESS.to_owned() };
    }
    if translating {
        return TranslateStart::Refuse { message: TRANSLATION_ACTIVE.to_owned() };
    }
    if user_id.is_none() {
        return TranslateStart::Ignore;
    }
    match voice_channel {
        None => TranslateStart::Refuse { message: NOT_IN_VOICE.to_owned() },
        Some(channel) => {
            if channel == 0 {
                TranslateStart::Refuse { message: INVALID_VOICE_CHANNEL.to_owned() }
            } else {
                TranslateStart::Join { guild_id: guild, channel_id: channel }
            }
        },
    }
}

/// The message for a voice channel that could not be joined.
pub fn join_failure_message(reason: &str) -> (m: String)
    ensures
        m@ == "Failed to join voice channel: "@ + reason@,
{
    let mut m = "Failed to join voice channel: ".to_owned();
    m.append(reason);
    m
}

/// Whether `lang` is one of the languages a user can choose.
pub open spec fn is_choice(lang: Seq<char>) -> bool {
    lang == "ja"@ || lang == "ko"@ || lang == "en"@
}

/// The flag shown for the language `lang`; a globe for any other.
pub open spec fn flag_of(lang: Seq<char>) -> Seq<char> {
    if lang == "ja"@ {
        "🇯🇵"@
    } else if lang == "ko"@ {
        "🇰🇷"@
    } else if lang == "en"@ {
        "🇺🇸"@
    } else {
        "🌐"@
    }
}

/// The flag shown for the language `lang`.
pub fn language_flag(lang: &str) -> (flag: &'static str)
    ensures
        flag@ == flag_of(lang@),
{
    if str_eq(lang, "ja") {
        "🇯🇵"
    } else if str_eq(lang, "ko") {
        "🇰🇷"
    } else if str_eq(lang, "en") {
        "🇺🇸"
    } else {
        "🌐"
    }
}

/// The answer to a saved language setting.
pub open spec fn saved_text(source: Seq<char>, target: Seq<char>) -> Seq<char> {
    "✅ **Language setting saved!**\n\n"@ + flag_of(source) + " **Speaking**: "@ + full_name_of(
        source,
    ) + "\n"@ + flag_of(target) + " **Translation target**: "@ + full_name_of(target)
}

/// What a request to set one's languages is answered with, or `None` where
/// it is honoured.
pub open spec fn set_refusal(
    user_id: Option<SpeakerId>,
    source: Option<Seq<char>>,
    target: Option<Seq<char>>,
) -> Option<Seq<char>> {
    if user_id is None {
        Some(UNKNOWN_USER@)
    } else if source is None || target is None {
        Some(SELECT_BOTH@)
    } else if !is_choice(source.unwrap()) || !is_choice(target.unwrap()) {
        Some(INVALID_LANGUAGES@)
    } else {
        None
    }
}

/// The characters of an optional text.
pub open spec fn opt_view(s: Option<&str>) -> Option<Seq<char>> {
    match s {
        Some(t) => Some(t@),
        None => None,
    }
}

fn is_language_choice(lang: &str) -> (r: bool)
    ensures
        r == is_choice(lang@),
{
    str_eq(lang, "ja") || str_eq(lang, "ko") || str_eq(lang, "en")
}

/// Sets the languages of a user as requested. The result is the answer
/// and whether the setting was saved. A request without a user, without
/// both languages, or with a language that is no choice changes nothing
/// and is answered with the error.
pub fn handle_translate_set(
    settings: &mut UserSettingsManager,
    user_id: Option<SpeakerId>,
    source: Option<&str>,
    target: Option<&str>,
) -> (r: (String, bool))
    ensures
        final(settings).file_path == old(settings).file_path,
        r.1 == (set_refusal(user_id, opt_view(source), opt_view(target)) is None),
        match set_refusal(user_id, opt_view(source), opt_view(target)) {
            Some(reason) => r.0@ == error_text(reason) && final(settings)@ == old(settings)@,
            None => r.0@ == saved_text(source.unwrap()@, target.unwrap()@) && final(settings)@
                == old(settings)@.insert(
                user_id.unwrap(),
                SettingView { source_lang: source.unwrap()@, target_lang: target.unwrap()@ },
            ),
        },
{
    let user = match user_id {
        Some(u) => u,
        None => {
            return (error_response(UNKNOWN_USER), false);
        },
    };
    let (source, target) = match (source, target) {
        (Some(s), Some(t)) => (s, t),
        _ => {
            return (error_response(SELECT_BOTH), false);
        },
    };
    if !is_language_choice(source) || !is_language_choice(target) {
        return (error_response(INVALID_LANGUAGES), false);
    }
    settings.set_user_language(user, source, target);
    let mut answer = "✅ **Language setting saved!**\n\n".to_owned();
    answer.append(language_flag(source));
    answer.append(" **Speaking**: ");
    answer.append(language_full_name(source).as_str());
    answer.append("\n");
    answer.append(language_flag(target));
    answer.append(" **Translation target**: ");
    answer.append(language_full_name(target).as_str());
    (answer, true)
}

/// Stops translating in a guild. The result is the answer and whether a
/// session was stopped, in which case the caller leaves the voice channel.
/// Outside a guild and without a translation session nothing changes and
/// the answer is the error. A capture session is not touched.
pub fn handle_translate_stop(sessions: &mut SessionRegistry, guild_id: Option<GuildId>) -> (r: (
    String,
    bool,
))
    requires
        old(sessions).exclusive(),
    ensures
        final(sessions).exclusive(),
        final(sessions).output_dir() == old(sessions).output_dir(),
        final(sessions).captures() == old(sessions).captures(),
        r.1 == (guild_id is Some && old(sessions).translations().contains_key(guild_id.unwrap())),
        match guild_id {
            None => r.0@ == error_text(SERVER_ONLY@) && final(sessions).translations() == old(sessions).translations(),
            Some(guild) => if old(sessions).translations().contains_key(guild) {
                r.0@ == TRANSLATION_STOPPED@ && final(sessions).translations() == old(sessions).translations().remove(guild)
            } else {
                r.0@ == error_text(NO_TRANSLATION_SESSION@) && final(sessions).translations()
                    == old(sessions).translations()
            },
        },
{
    let guild = match guild_id {
        Some(g) => g,
        None => {
            return (error_response(SERVER_ONLY), false);
        },
    };
    match sessions.active_mode(guild) {
        Some(SessionMode::Translating) => {},
        _ => {
            return (error_response(NO_TRANSLATION_SESSION), false);
        },
    }
    match sessions.stop(guild) {
        StoppedSession::Translating(_) => {
            assert(sessions.captures() =~= old(sessions).captures());
            (TRANSLATION_STOPPED.to_owned(), true)
        },
        _ => (error_response(NO_TRANSLATION_SESSION), false),
    }
}

} // verus!
