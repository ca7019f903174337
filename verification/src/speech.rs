//! Decisions around speech recognition: language codes, language guessing,
//! joining recognized segments and rejecting spurious output.

use vstd::prelude::*;
use crate::audio::{decimated, downsample_48k_to_16k};
use crate::text::{
    chars_of, contains_chars, has_infix, is_whitespace, is_whitespace_char, trimmed,
};
use crate::wav::{decode_wav, wav_decoding, CAPTURE_RATE, RECOGNIZER_RATE};

verus! {

/// Language codes in the order of the recognizer's language identifiers.
pub const LANGUAGE_CODES: [&'static str; 99] = [
    "en", "zh", "de", "es", "ru", "ko", "fr", "ja", "pt", "tr", "pl", "ca", "nl", "ar", "sv",
    "it", "id", "hi", "fi", "vi", "he", "uk", "el", "ms", "cs", "ro", "da", "hu", "ta", "no",
    "th", "ur", "hr", "bg", "lt", "la", "mi", "ml", "cy", "sk", "te", "fa", "lv", "bn", "sr",
    "az", "sl", "kn", "et", "mk", "br", "eu", "is", "hy", "ne", "mn", "bs", "kk", "sq", "sw",
    "gl", "mr", "pa", "si", "km", "sn", "yo", "so", "af", "oc", "ka", "be", "tg", "sd", "gu",
    "am", "yi", "lo", "uz", "fo", "ht", "ps", "tk", "nn", "mt", "sa", "lb", "my", "bo", "tl",
    "mg", "as", "tt", "haw", "ln", "ha", "ba", "jw", "su",
];

/// The language code of the recognizer's identifier `lang_id`; English for
/// an identifier outside the table.
pub open spec fn language_code_of(lang_id: int) -> &'static str {
    if 0 <= lang_id < 99 {
        LANGUAGE_CODES[lang_id]
    } else {
        "en"
    }
}

/// The language code of the recognizer's identifier `lang_id`.
pub fn get_lang_str_from_id(lang_id: i32) -> (code: &'static str)
    ensures
        code == language_code_of(lang_id as int),
{
    if 0 <= lang_id && lang_id < 99 {
        LANGUAGE_CODES[lang_id as usize]
    } else {
        "en"
    }
}

/// Whether `c` is hiragana, katakana or a common CJK ideograph.
pub open spec fn is_japanese_char(c: char) -> bool {
    let n = c as u32;
    (0x3040 <= n <= 0x309F) || (0x30A0 <= n <= 0x30FF) || (0x4E00 <= n <= 0x9FFF)
}

/// Number of Japanese characters in `s`.
pub open spec fn japanese_count(s: Seq<char>) -> nat
    decreases s.len(),
{
    if s.len() == 0 {
        0
    } else {
        japanese_count(s.drop_last()) + (if is_japanese_char(s.last()) {
            1nat
        } else {
            0nat
        })
    }
}

/// Whether more than a tenth of the characters of `s` are Japanese.
pub open spec fn mostly_japanese(s: Seq<char>) -> bool {
    s.len() > 0 && japanese_count(s) * 10 > s.len()
}

/// Whether more than a tenth of the characters of `text` are Japanese.
pub fn is_mostly_japanese(text: &str) -> (r: bool)
    ensures
        r == mostly_japanese(text@),
{
    let chars = chars_of(text);
    let mut japanese: u128 = 0;
    let mut i: usize = 0;
    while i < chars.len()
        invariant
            0 <= i <= chars@.len(),
            chars@ == text@,
            japanese == japanese_count(chars@.take(i as int)),
            japanese <= i,
        decreases chars@.len() - i,
    {
        assert(chars@.take(i + 1).drop_last() =~= chars@.take(i as int));
        let n: u32 = chars[i] as u32;
        if (0x3040 <= n && n <= 0x309F) || (0x30A0 <= n && n <= 0x30FF) || (0x4E00 <= n && n
            <= 0x9FFF) {
            japanese = japanese + 1;
        }
        i = i + 1;
    }
    assert(chars@.take(chars@.len() as int) =~= chars@);
    let total: u128 = chars.len() as u128;
    total > 0 && japanese * 10 > total
}

/// Guesses the language of `text` from its characters: the code `ja` where
/// more than a tenth of them are Japanese, `en` otherwise.
pub fn detect_language_local(text: &str) -> (code: String)
    ensures
        code@ == (if mostly_japanese(text@) {
            "ja"@
        } else {
            "en"@
        }),
{
    if is_mostly_japanese(text) {
        "ja".to_owned()
    } else {
        "en".to_owned()
    }
}

/// Whether `s` holds nothing but whitespace.
pub open spec fn is_blank(s: Seq<char>) -> bool {
    trimmed(s).len() == 0
}

/// The texts of `v`.
pub open spec fn text_views(v: Seq<String>) -> Seq<Seq<char>> {
    Seq::new(v.len(), |i: int| v[i]@)
}

/// Every segment that is not blank, each followed by one space.
pub open spec fn spaced_segments(segments: Seq<Seq<char>>) -> Seq<char>
    decreases segments.len(),
{
    if segments.len() == 0 {
        Seq::empty()
    } else {
        let before = spaced_segments(segments.drop_last());
        if is_blank(segments.last()) {
            before
        } else {
            before + segments.last() + seq![' ']
        }
    }
}

/// Joins the recognized segments into one transcript: blank segments are
/// left out, the others are separated by one space, and the whole is
/// trimmed.
pub fn join_segments(segments: &Vec<String>) -> (transcript: String)
    ensures
        transcript@ == trimmed(spaced_segments(text_views(segments@))),
{
    let ghost texts = text_views(segments@);
    let mut joined = String::new();
    let mut i: usize = 0;
    while i < segments.len()
        invariant
            0 <= i <= segments@.len(),
            texts == text_views(segments@),
            joined@ == spaced_segments(texts.take(i as int)),
        decreases segments@.len() - i,
    {
        assert(texts.take(i + 1).drop_last() =~= texts.take(i as int));
        assert(texts.take(i + 1).last() == segments@[i as int]@);
        let text = segments[i].as_str();
        if !text.trim().is_empty() {
            joined.append(text);
            joined.push(' ');
            assert(joined@ =~= spaced_segments(texts.take(i as int)) + text@ + seq![' ']);
        }
        i = i + 1;
    }
    assert(texts.take(i as int) =~= texts);
    joined.as_str().trim().to_owned()
}

/// One recognized segment with its start and end time.
pub type TimedSegment = (i64, i64, String);

/// Whether `kept` holds the segments of `all` whose text is not blank, in
/// order.
pub open spec fn spoken_of(all: Seq<TimedSegment>, kept: Seq<TimedSegment>) -> bool
    decreases all.len(),
{
    if all.len() == 0 {
        kept.len() == 0
    } else if is_blank(all.last().2@) {
        spoken_of(all.drop_last(), kept)
    } else {
        kept.len() > 0 && kept.last().0 == all.last().0 && kept.last().1 == all.last().1
            && kept.last().2@ == all.last().2@ && spoken_of(all.drop_last(), kept.drop_last())
    }
}

/// Keeps the segments whose text is not blank.
pub fn spoken_segments(segments: Vec<TimedSegment>) -> (kept: Vec<TimedSegment>)
    ensures
        spoken_of(segments@, kept@),
{
    let mut kept: Vec<TimedSegment> = Vec::new();
    let mut i: usize = 0;
    while i < segments.len()
        invariant
            0 <= i <= segments@.len(),
            spoken_of(segments@.take(i as int), kept@),
        decreases segments@.len() - i,
    {
        assert(segments@.take(i + 1).drop_last() =~= segments@.take(i as int));
        let ghost kept_before = kept@;
        if !segments[i].2.as_str().trim().is_empty() {
            let text = segments[i].2.clone();
            kept.push((segments[i].0, segments[i].1, text));
            assert(kept@.drop_last() =~= kept_before);
        }
        i = i + 1;
    }
    assert(segments@.take(i as int) =~= segments@);
    kept
}

/// Audio shorter than this many milliseconds counts as short.
pub const SHORT_AUDIO_MS: u64 = 1200;

/// Phrases that the recognizer is known to make up on silence or noise.
pub const FILLER_PHRASES: [&'static str; 4] = [
    "お疲れ様でした",
    "おつかれさまでした",
    "ご視聴ありがとうございました",
    "ごしちょうありがとうございました",
];

/// Whether `c` is one of the punctuation marks that normalization drops.
pub open spec fn is_dropped_punctuation(c: char) -> bool {
    c == '。' || c == '、' || c == '！' || c == '!' || c == '？' || c == '?'
}

/// `s` without whitespace and without the dropped punctuation marks.
pub open spec fn normalized(s: Seq<char>) -> Seq<char>
    decreases s.len(),
{
    if s.len() == 0 {
        Seq::empty()
    } else {
        let before = normalized(s.drop_last());
        if is_whitespace_char(s.last()) || is_dropped_punctuation(s.last()) {
            before
        } else {
            before.push(s.last())
        }
    }
}

/// The characters of the filler phrase with index `i`.
pub open spec fn filler(i: int) -> Seq<char> {
    FILLER_PHRASES[i]@
}

/// Whether one of the filler phrases occurs in `s`.
pub open spec fn holds_filler(s: Seq<char>) -> bool {
    exists|i: int| 0 <= i < 4 && has_infix(s, #[trigger] filler(i))
}

/// The rejection rule: the audio is short or weak, and the normalized text
/// holds a filler phrase.
pub open spec fn likely_hallucination(text: Seq<char>, duration_ms: u64, low_energy: bool) -> bool {
    (duration_ms < SHORT_AUDIO_MS || low_energy) && holds_filler(normalized(text))
}

/// `text` without whitespace and without the dropped punctuation marks.
pub fn normalize(text: &str) -> (out: Vec<char>)
    ensures
        out@ == normalized(text@),
{
    let mut out: Vec<char> = Vec::new();
    for c in it: text.chars()
        invariant
            it.seq() == text@,
            out@ == normalized(text@.take(it.index())),
    {
        assert(text@.take(it.index() + 1).drop_last() =~= text@.take(it.index()));
        let dropped = is_whitespace(c) || c == '。' || c == '、' || c == '！' || c == '!' || c
            == '？' || c == '?';
        if !dropped {
            out.push(c);
        }
    }
    assert(text@.take(text@.len() as int) =~= text@);
    out
}

/// Whether recognized `text` is to be discarded as noise. `low_energy` says
/// whether the signal energy of the audio lies below the threshold.
pub fn is_likely_hallucination(text: &str, duration_ms: u64, low_energy: bool) -> (r: bool)
    ensures
        r == likely_hallucination(text@, duration_ms, low_energy),
{
    if !(duration_ms < SHORT_AUDIO_MS || low_energy) {
        return false;
    }
    let norm = normalize(text);
    let mut i: usize = 0;
    while i < 4
        invariant
            0 <= i <= 4,
            duration_ms < SHORT_AUDIO_MS || low_energy,
            norm@ == normalized(text@),
            forall|k: int| 0 <= k < i ==> !has_infix(norm@, #[trigger] filler(k)),
        decreases 4 - i,
    {
        let phrase = chars_of(FILLER_PHRASES[i]);
        assert(phrase@ == filler(i as int));
        if contains_chars(&norm, &phrase) {
            return true;
        }
        i = i + 1;
    }
    false
}

/// What to do with audio that is handed to the recognizer.
#[derive(Debug)]
pub enum RecognitionPlan {
    /// There is no audio: the result is empty and the recognizer is not
    /// invoked.
    Skip,
    /// No language was given: a first pass detects it.
    Detect,
    /// Transcribe in the given language.
    Transcribe { language: String },
}

/// Decides how `audio_len` samples are recognized under an optional
/// language hint.
pub fn plan_recognition(audio_len: usize, language: Option<&str>) -> (plan: RecognitionPlan)
    ensures
        audio_len == 0 ==> plan is Skip,
        audio_len > 0 && language is None ==> plan is Detect,
        audio_len > 0 && language is Some ==> (plan matches RecognitionPlan::Transcribe {
            language: chosen,
        } && chosen@ == language.unwrap()@),
{
    if audio_len == 0 {
        RecognitionPlan::Skip
    } else {
        match language {
            Some(code) => RecognitionPlan::Transcribe { language: code.to_owned() },
            None => RecognitionPlan::Detect,
        }
    }
}

/// The result for empty audio: no text, and English as the language.
pub fn empty_recognition() -> (r: (String, String))
    ensures
        r.0@.len() == 0,
        r.1@ == "en"@,
{
    (String::new(), "en".to_owned())
}

/// The language to transcribe in after the detection pass: the code of the
/// identifier that the recognizer detected, or, where it detected none, a
/// guess from the text of the first pass.
pub fn resolve_language(detected: Option<i32>, first_pass_text: &str) -> (code: String)
    ensures
        code@ == (match detected {
            Some(id) => language_code_of(id as int)@,
            None => if mostly_japanese(first_pass_text@) {
                "ja"@
            } else {
                "en"@
            },
        }),
{
    match detected {
        Some(id) => get_lang_str_from_id(id).to_owned(),
        None => detect_language_local(first_pass_text),
    }
}

/// Why a stored artifact cannot be handed to the recognizer.
#[derive(Debug, Clone, Copy, PartialEq, Eq)]
pub enum WavInputError {
    /// The bytes are no WAVE image that the decoder accepts.
    Unreadable,
    /// The image has a sample rate other than 48 kHz and 16 kHz.
    UnsupportedSampleRate { rate: u32 },
}

/// The samples of `items` that could be read, in order.
pub open spec fn readable_samples(items: Seq<Option<i16>>) -> Seq<i16>
    decreases items.len(),
{
    if items.len() == 0 {
        Seq::empty()
    } else {
        let before = readable_samples(items.drop_last());
        match items.last() {
            Some(x) => before.push(x),
            None => before,
        }
    }
}

/// The samples of `items` that could be read, in order.
pub fn readable(items: &Vec<Option<i16>>) -> (out: Vec<i16>)
    ensures
        out@ == readable_samples(items@),
{
    let mut out: Vec<i16> = Vec::new();
    let mut i: usize = 0;
    while i < items.len()
        invariant
            0 <= i <= items@.len(),
            out@ == readable_samples(items@.take(i as int)),
        decreases items@.len() - i,
    {
        assert(items@.take(i + 1).drop_last() =~= items@.take(i as int));
        match items[i] {
            Some(x) => {
                out.push(x);
            },
            None => {},
        }
        i = i + 1;
    }
    assert(items@.take(i as int) =~= items@);
    out
}

/// What the recognizer gets for audio at `rate`: 48 kHz audio decimated,
/// 16 kHz audio as it is, nothing for another rate.
pub open spec fn recognizer_samples(rate: u32, samples: Seq<i16>) -> Result<
    Seq<i16>,
    WavInputError,
> {
    if rate == CAPTURE_RATE {
        Ok(decimated(samples))
    } else if rate == RECOGNIZER_RATE {
        Ok(samples)
    } else {
        Err(WavInputError::UnsupportedSampleRate { rate })
    }
}

/// Whether `r` is `expected`, the samples taken as a sequence.
pub open spec fn is_input(r: Result<Vec<i16>, WavInputError>, expected: Result<
    Seq<i16>,
    WavInputError,
>) -> bool {
    match r {
        Ok(v) => expected == Ok::<Seq<i16>, WavInputError>(v@),
        Err(e) => expected == Err::<Seq<i16>, WavInputError>(e),
    }
}

/// Brings audio at `rate` to the rate of the recognizer.
pub fn recognizer_input(rate: u32, samples: Vec<i16>) -> (r: Result<Vec<i16>, WavInputError>)
    ensures
        is_input(r, recognizer_samples(rate, samples@)),
{
    if rate == CAPTURE_RATE {
        Ok(downsample_48k_to_16k(samples.as_slice()))
    } else if rate == RECOGNIZER_RATE {
        Ok(samples)
    } else {
        Err(WavInputError::UnsupportedSampleRate { rate })
    }
}

/// What the recognizer gets for a stored artifact: the samples of the
/// image that can be read, the others left out, brought to the rate of the
/// recognizer.
pub open spec fn recognizer_samples_of_wav(bytes: Seq<u8>) -> Result<Seq<i16>, WavInputError> {
    match wav_decoding(bytes) {
        Some((rate, items)) => recognizer_samples(rate, readable_samples(items)),
        None => Err(WavInputError::Unreadable),
    }
}

/// Decodes a stored artifact and brings its audio to the rate of the
/// recognizer.
pub fn recognizer_input_from_wav(bytes: &[u8]) -> (r: Result<Vec<i16>, WavInputError>)
    ensures
        is_input(r, recognizer_samples_of_wav(bytes@)),
{
    match decode_wav(bytes) {
        Ok((rate, items)) => recognizer_input(rate, readable(&items)),
        Err(_) => Err(WavInputError::Unreadable),
    }
}

} // verus!
