//! The per-utterance pipeline of a translation session, as decisions: what
//! the periodic sweep does, what is handed to the recognizer, what to the
//! translation service, and what is presented.

use vstd::prelude::*;
use crate::audio::{
    decimated, downsample_48k_to_16k, duration_ms, duration_ms_of, is_low_energy, low_energy,
};
use crate::buffer::{MIN_SAMPLES, SILENCE_MS};
use crate::ids::{GuildId, SpeakerId};
use crate::speech::{is_blank, is_likely_hallucination, likely_hallucination};
use crate::text::uppercase_of;
use crate::translation::{swept_from, TranslationManager, Utterance};
use crate::translator::TranslateError;
use crate::user_settings::{full_name_of, UserLanguageSetting};
use crate::wav::CAPTURE_RATE;

verus! {

/// Time between two sweeps, in milliseconds.
pub const SWEEP_INTERVAL_MS: u64 = 500;

/// What the sweep loop does next.
pub enum SweepStep {
    /// The session is gone: the loop ends.
    Stop,
    /// Process each utterance on its own, then sleep and sweep again.
    Dispatch { utterances: Vec<Utterance>, sleep_ms: u64 },
}

/// One turn of the sweep loop for `guild_id` at `now_ms`.
pub fn sweep_step(manager: &mut TranslationManager, guild_id: GuildId, now_ms: i64) -> (step:
    SweepStep)
    ensures
        !old(manager)@.contains_key(guild_id) ==> step is Stop && final(manager)@ == old(manager)@,
        old(manager)@.contains_key(guild_id) ==> (step matches SweepStep::Dispatch {
            utterances,
            sleep_ms,
        } && sleep_ms == SWEEP_INTERVAL_MS && swept_from(
            old(manager)@[guild_id],
            utterances@,
            SILENCE_MS,
            MIN_SAMPLES,
            now_ms,
        ) && final(manager)@ == old(manager)@.insert(
            guild_id,
            old(manager)@[guild_id].after_sweep(SILENCE_MS, MIN_SAMPLES, now_ms),
        )),
{
    if !manager.is_translating(guild_id) {
        return SweepStep::Stop;
    }
    let utterances = manager.get_ready_translations(guild_id, now_ms);
    SweepStep::Dispatch { utterances, sleep_ms: SWEEP_INTERVAL_MS }
}

/// What is handed to the recognizer for one utterance.
#[derive(Debug)]
pub struct RecognitionJob {
    pub speaker: SpeakerId,
    /// The utterance at the rate of the recognizer.
    pub samples: Vec<i16>,
    /// The language the speaker is set to speak.
    pub language_hint: String,
    /// Length of the utterance as it was captured.
    pub duration_ms: u64,
    /// Whether the signal energy of the utterance is low.
    pub low_energy: bool,
}

/// Prepares one utterance for the recognizer. A speaker without a setting
/// is skipped silently, and so is audio below the minimum length.
pub fn plan_utterance(setting: Option<&UserLanguageSetting>, speaker: SpeakerId, samples: &[i16]) -> (job:
    Option<RecognitionJob>)
    ensures
        job is Some <==> (setting is Some && samples@.len() >= MIN_SAMPLES),
        job matches Some(j) ==> {
            &&& j.speaker == speaker
            &&& j.samples@ == decimated(samples@)
            &&& j.language_hint@ == setting.unwrap()@.source_lang
            &&& j.duration_ms == duration_ms_of(samples@.len(), CAPTURE_RATE)
            &&& j.low_energy == low_energy(samples@)
        },
{
    let setting = match setting {
        Some(s) => s,
        None => {
            return None;
        },
    };
    if samples.len() < MIN_SAMPLES {
        return None;
    }
    proof {
        assert(samples@.len() * 1000 / 48000 <= u64::MAX) by (nonlinear_arith)
            requires
                samples@.len() <= usize::MAX,
                usize::MAX <= u64::MAX,
        ;
    }
    Some(
        RecognitionJob {
            speaker,
            samples: downsample_48k_to_16k(samples),
            language_hint: setting.source_lang.clone(),
            duration_ms: duration_ms(samples.len(), CAPTURE_RATE),
            low_energy: is_low_energy(samples),
        },
    )
}

/// What is handed to the translation service for one recognized utterance.
#[derive(Debug)]
pub struct TranslationOrder {
    pub text: String,
    /// English name of the source language.
    pub source_lang: String,
    /// English name of the target language.
    pub target_lang: String,
}

/// Whether recognized `text` goes on to translation: it is not blank and
/// not rejected as noise.
pub open spec fn is_translated(text: Seq<char>, duration_ms: u64, low_energy: bool) -> bool {
    !is_blank(text) && !likely_hallucination(text, duration_ms, low_energy)
}

/// Decides what follows recognition of an utterance of `duration_ms` with
/// the given energy.
pub fn plan_translation(
    setting: &UserLanguageSetting,
    text: &str,
    duration_ms: u64,
    low_energy: bool,
) -> (order: Option<TranslationOrder>)
    ensures
        order is Some <==> is_translated(text@, duration_ms, low_energy),
        order matches Some(o) ==> {
            &&& o.text@ == text@
            &&& o.source_lang@ == full_name_of(setting@.source_lang)
            &&& o.target_lang@ == full_name_of(setting@.target_lang)
        },
{
    if text.trim().is_empty() {
        return None;
    }
    if is_likely_hallucination(text, duration_ms, low_energy) {
        return None;
    }
    Some(
        TranslationOrder {
            text: text.to_owned(),
            source_lang: setting.get_source_full(),
            target_lang: setting.get_target_full(),
        },
    )
}

/// One labelled text of a presentation.
#[derive(Debug)]
pub struct PresentedField {
    pub name: String,
    pub value: String,
}

/// What the presenter shows for one translated utterance.
#[derive(Debug)]
pub struct Presentation {
    pub title: String,
    pub color: u32,
    pub source: PresentedField,
    pub translation: PresentedField,
}

/// Colour of a presentation.
pub const PRESENTATION_COLOR: u32 = 0x3498db;

/// The label of the transcript of a speaker of the language `code`.
pub open spec fn source_label(code: Seq<char>) -> Seq<char> {
    "🗣️ Original ("@ + uppercase_of(code) + ")"@
}

/// The label of the translation into the language `code`.
pub open spec fn translation_label(code: Seq<char>) -> Seq<char> {
    "🌐 Translation ("@ + uppercase_of(code) + ")"@
}

/// The label of the transcript, given the code of the language in
/// uppercase.
pub fn source_field_name(upper_code: &str) -> (name: String)
    ensures
        name@ == "🗣️ Original ("@ + upper_code@ + ")"@,
{
    let mut name = "🗣️ Original (".to_owned();
    name.append(upper_code);
    name.append(")");
    name
}

/// The label of the translation, given the code of the language in
/// uppercase.
pub fn translation_field_name(upper_code: &str) -> (name: String)
    ensures
        name@ == "🌐 Translation ("@ + upper_code@ + ")"@,
{
    let mut name = "🌐 Translation (".to_owned();
    name.append(upper_code);
    name.append(")");
    name
}

/// Lays out a translated utterance for the presenter.
pub fn present(setting: &UserLanguageSetting, transcription: String, translated: String) -> (p:
    Presentation)
    ensures
        p.title@ == "Real-time Translation"@,
        p.color == PRESENTATION_COLOR,
        p.source.name@ == source_label(setting@.source_lang),
        p.source.value@ == transcription@,
        p.translation.name@ == translation_label(setting@.target_lang),
        p.translation.value@ == translated@,
{
    let source = setting.source_lang.as_str().to_uppercase();
    let target = setting.target_lang.as_str().to_uppercase();
    Presentation {
        title: "Real-time Translation".to_owned(),
        color: PRESENTATION_COLOR,
        source: PresentedField {
            name: source_field_name(source.as_str()),
            value: transcription,
        },
        translation: PresentedField {
            name: translation_field_name(target.as_str()),
            value: translated,
        },
    }
}

/// What stands in for the translation when the quota is used up.
pub const QUOTA_NOTICE: &'static str = "⚠️ Translation unavailable: the translation quota is used up.";

/// What is presented once the translation service has answered for one
/// utterance: the transcript with its translation; or, where the quota is
/// used up, the transcript with a notice in place of the translation; or,
/// after any other failure, nothing.
pub fn conclude_utterance(
    setting: &UserLanguageSetting,
    transcription: String,
    translation: Result<String, TranslateError>,
) -> (p: Option<Presentation>)
    ensures
        match translation {
            Ok(translated) => p matches Some(shown) && shown.translation.value@ == translated@,
            Err(e) => if e@ is QuotaExceeded {
                p matches Some(shown) && shown.translation.value@ == QUOTA_NOTICE@
            } else {
                p is None
            },
        },
        p matches Some(shown) ==> {
            &&& shown.title@ == "Real-time Translation"@
            &&& shown.color == PRESENTATION_COLOR
            &&& shown.source.name@ == source_label(setting@.source_lang)
            &&& shown.source.value@ == transcription@
            &&& shown.translation.name@ == translation_label(setting@.target_lang)
        },
{
    match translation {
        Ok(translated) => Some(present(setting, transcription, translated)),
        Err(e) => {
            if e.is_quota_exceeded() {
                Some(present(setting, transcription, QUOTA_NOTICE.to_owned()))
            } else {
                None
            }
        },
    }
}

} // verus!
