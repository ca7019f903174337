//! Audio artifacts: WAVE images of sample buffers and the time stamp in
//! their names. The encoding itself is hound's, the calendar is chrono's.

use vstd::prelude::*;
use std::fmt::Write;

verus! {

/// Sample rate of captured audio, in Hz.
pub const CAPTURE_RATE: u32 = 48000;

/// Sample rate that the recognizer expects, in Hz.
pub const RECOGNIZER_RATE: u32 = 16000;

/// Channels of captured audio: one.
pub const CAPTURE_CHANNELS: u16 = 1;

/// Bits per sample of captured audio.
pub const CAPTURE_BITS: u16 = 16;

/// hound's error type, carried through as it is; nothing is known of a
/// value of it.
#[verifier::external_type_specification]
#[verifier::external_body]
pub struct ExHoundError(hound::Error);

/// The WAVE image that hound writes for `samples` under a header with this
/// number of channels, sample rate, bits per sample and sample format
/// (IEEE float or integer); `None` where hound reports an error.
pub uninterp spec fn wav_encoding(
    channels: u16,
    sample_rate: u32,
    bits_per_sample: u16,
    float_format: bool,
    samples: Seq<i16>,
) -> Option<Seq<u8>>;

/// What hound reads from a WAVE image: the sample rate of its header and,
/// for each sample that the header announces, the 16-bit value or `None`
/// where that sample cannot be read as one. `None` for the whole where
/// hound rejects the header.
pub uninterp spec fn wav_decoding(bytes: Seq<u8>) -> Option<(u32, Seq<Option<i16>>)>;

/// The text that chrono prints for the instant `millis` milliseconds after
/// the epoch with the strftime pattern `pattern`; `None` where chrono has no
/// such instant or cannot print it with the pattern.
pub uninterp spec fn stamp_text(pattern: Seq<char>, millis: i64) -> Option<Seq<char>>;

/// The pattern of the time stamp in the name of an artifact: date, then
/// time, down to the second.
pub const STAMP_PATTERN: &'static str = "%Y%m%d_%H%M%S";

/// Bytes that one sample of `bits_per_sample` bits takes in an image.
pub open spec fn sample_bytes(bits_per_sample: u16) -> int {
    (bits_per_sample + 7) / 8
}

/// Bytes of the header of an image that count towards its length field:
/// more than two channels or more than 16 bits take the longer header.
pub open spec fn header_bytes(channels: u16, bits_per_sample: u16) -> int {
    if channels > 2 || bits_per_sample > 16 {
        60
    } else {
        36
    }
}

/// Whether hound writes samples of `bits_per_sample` bits: one of the four
/// depths of whole bytes up to 32.
pub open spec fn is_written_depth(bits_per_sample: u16) -> bool {
    bits_per_sample == 8 || bits_per_sample == 16 || bits_per_sample == 24 || bits_per_sample
        == 32
}

/// Whether `len` samples can be written under such a header: there is a
/// channel and a rate, the depth is one that hound writes, a float format
/// has 32 bits, and the byte rate and the length of the image fit 32 bits.
pub open spec fn wav_fits(
    channels: u16,
    sample_rate: u32,
    bits_per_sample: u16,
    float_format: bool,
    len: nat,
) -> bool {
    &&& channels >= 1
    &&& sample_rate >= 1
    &&& is_written_depth(bits_per_sample)
    &&& float_format ==> bits_per_sample == 32
    &&& sample_rate * sample_bytes(bits_per_sample) * channels <= u32::MAX
    &&& len * sample_bytes(bits_per_sample) + header_bytes(channels, bits_per_sample) <= u32::MAX
}

/// Whether a buffer of `len` samples is too long for one image of captured
/// audio, whose length fields are 32 bits wide.
pub open spec fn too_long_for_wav(len: nat) -> bool {
    2 * len + 36 > u32::MAX
}

/// hound's `WavWriter` over a buffer in memory: `new` with a spec of the
/// given channels, rate, bits and format, `write_sample` for every sample in
/// order, then `finalize`. The contract claims only that the outcome is a
/// function of the arguments. The `requires` leaves out what hound does not
/// return from: a depth of no bytes or no channel, on which it divides by
/// zero when the writer is dropped; a float format of other than 32 bits,
/// on which its header writer panics; and sizes beyond its 32-bit
/// arithmetic. It also leaves out the depths that hound refuses.
#[verifier::external_body]
pub(crate) fn encode_wav(
    channels: u16,
    sample_rate: u32,
    bits_per_sample: u16,
    float_format: bool,
    samples: &Vec<i16>,
) -> (r: Result<Vec<u8>, hound::Error>)
    requires
        wav_fits(channels, sample_rate, bits_per_sample, float_format, samples@.len()),
    ensures
        match r {
            Ok(bytes) => wav_encoding(
                channels,
                sample_rate,
                bits_per_sample,
                float_format,
                samples@,
            ) == Some(bytes@),
            Err(_) => wav_encoding(channels, sample_rate, bits_per_sample, float_format, samples@)
                is None,
        },
{
    let sample_format =
        if float_format { hound::SampleFormat::Float } else { hound::SampleFormat::Int };
    let spec = hound::WavSpec { channels, sample_rate, bits_per_sample, sample_format };
    let mut image = std::io::Cursor::new(Vec::new());
    let mut writer = hound::WavWriter::new(&mut image, spec)?;
    for sample in samples {
        writer.write_sample(*sample)?;
    }
    writer.finalize()?;
    Ok(image.into_inner())
}

/// hound's `WavReader` over bytes in memory: `new`, the sample rate of
/// `spec`, and every item of `samples::<i16>`, an error turned into `None`.
/// The contract claims only that the outcome is a function of the bytes.
#[verifier::external_body]
pub(crate) fn decode_wav(bytes: &[u8]) -> (r: Result<(u32, Vec<Option<i16>>), hound::Error>)
    ensures
        match r {
            Ok((rate, items)) => wav_decoding(bytes@) == Some((rate, items@)),
            Err(_) => wav_decoding(bytes@) is None,
        },
{
    let mut reader = hound::WavReader::new(std::io::Cursor::new(bytes))?;
    let rate = reader.spec().sample_rate;
    let items = reader.samples::<i16>().map(Result::ok).collect();
    Ok((rate, items))
}

/// chrono's `DateTime::from_timestamp_millis` followed by `format` with
/// `pattern`, written out. The contract claims only that the outcome is a
/// function of the arguments.
#[verifier::external_body]
pub(crate) fn format_stamp(pattern: &str, millis: i64) -> (r: Option<String>)
    ensures
        match r {
            Some(text) => stamp_text(pattern@, millis) == Some(text@),
            None => stamp_text(pattern@, millis) is None,
        },
{
    let instant = chrono::DateTime::from_timestamp_millis(millis)?;
    let mut text = String::new();
    match write!(text, "{}", instant.format(pattern)) {
        Ok(()) => Some(text),
        Err(_) => None,
    }
}

} // verus!
