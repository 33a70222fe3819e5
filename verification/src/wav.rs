//! Decoding of WAV recordings.
use crate::blocks::TARGET_SAMPLE_RATE;
use crate::resample::is_triple;
use crate::text::{concat_text, decimal, decimal_text};
use vstd::prelude::*;

verus! {

/// What the header of a WAV file declares.
#[derive(Clone, Copy)]
pub struct WavFormat {
    pub channels: u16,
    pub sample_rate: u32,
    pub bits_per_sample: u16,
    pub int_samples: bool,
}

/// The header that `hound` reads off a WAV file: its channels, sample rate,
/// bits per sample and whether samples are integers; or the text of its error.
pub uninterp spec fn wav_header_of(bytes: Seq<u8>) -> Result<(u16, u32, u16, bool), Seq<char>>;

/// The samples that `hound` reads off a WAV file as 16-bit integers, or the
/// text of its first error.
pub uninterp spec fn wav_i16_of(bytes: Seq<u8>) -> Result<Seq<i16>, Seq<char>>;

/// The samples that `hound` reads off a WAV file as 32-bit integers, or the
/// text of its first error.
pub uninterp spec fn wav_i32_of(bytes: Seq<u8>) -> Result<Seq<i32>, Seq<char>>;

/// `hound::WavReader::new` on the bytes of a file, and the reader's `spec`.
/// The contract claims that what comes back, the error's text included, is a
/// function of the bytes.
#[verifier::external_body]
fn wav_header(bytes: &[u8]) -> (r: Result<WavFormat, String>)
    ensures
        match (r, wav_header_of(bytes@)) {
            (Ok(f), Ok(h)) => h == (f.channels, f.sample_rate, f.bits_per_sample, f.int_samples),
            (Err(e), Err(t)) => e@ == t,
            _ => false,
        },
{
    let spec = hound::WavReader::new(bytes).map_err(|err| err.to_string())?.spec();
    Ok(WavFormat {
        channels: spec.channels,
        sample_rate: spec.sample_rate,
        bits_per_sample: spec.bits_per_sample,
        int_samples: match spec.sample_format {
            hound::SampleFormat::Int => true,
            hound::SampleFormat::Float => false,
        },
    })
}

/// `hound::WavReader::samples` as 16-bit integers, collected up to the first
/// error. The contract claims that what comes back is a function of the bytes.
#[verifier::external_body]
fn wav_samples_i16(bytes: &[u8]) -> (r: Result<Vec<i16>, String>)
    ensures
        match (r, wav_i16_of(bytes@)) {
            (Ok(v), Ok(s)) => v@ == s,
            (Err(e), Err(t)) => e@ == t,
            _ => false,
        },
{
    let mut reader = hound::WavReader::new(bytes).map_err(|err| err.to_string())?;
    let samples: Result<Vec<i16>, hound::Error> = reader.samples::<i16>().collect();
    samples.map_err(|err| err.to_string())
}

/// `hound::WavReader::samples` as 32-bit integers, collected up to the first
/// error. The contract claims that what comes back is a function of the bytes.
#[verifier::external_body]
fn wav_samples_i32(bytes: &[u8]) -> (r: Result<Vec<i32>, String>)
    ensures
        match (r, wav_i32_of(bytes@)) {
            (Ok(v), Ok(s)) => v@ == s,
            (Err(e), Err(t)) => e@ == t,
            _ => false,
        },
{
    let mut reader = hound::WavReader::new(bytes).map_err(|err| err.to_string())?;
    let samples: Result<Vec<i32>, hound::Error> = reader.samples::<i32>().collect();
    samples.map_err(|err| err.to_string())
}

/// How the samples of a file are to be read.
#[derive(Clone, Copy, PartialEq, Eq, Structural)]
pub enum PcmKind {
    I16,
    I32,
    Float,
}

/// How the samples of a file are to be read: 16-bit integers as they are, 24
/// and 32 bits widened, floats as floats; no other depth is read.
pub open spec fn pcm_kind_of(bits: u16, int_samples: bool) -> Option<PcmKind> {
    if !int_samples {
        Some(PcmKind::Float)
    } else if bits == 16 {
        Some(PcmKind::I16)
    } else if bits == 24 || bits == 32 {
        Some(PcmKind::I32)
    } else {
        None
    }
}

/// The format that recordings are written in, and the microphone is read in: one
/// channel of 16-bit integers at the target rate. It is one of those that can
/// be read back, and three times the speech rate.
pub fn recording_format() -> (r: WavFormat)
    ensures
        r == (WavFormat {
            channels: 1,
            sample_rate: TARGET_SAMPLE_RATE,
            bits_per_sample: 16,
            int_samples: true,
        }),
        pcm_kind_of(r.bits_per_sample, r.int_samples) == Some(PcmKind::I16),
        is_triple(r.sample_rate as int),
{
    WavFormat {
        channels: 1,
        sample_rate: TARGET_SAMPLE_RATE,
        bits_per_sample: 16,
        int_samples: true,
    }
}

/// What follows the reading of a header: how to read on, or the message that
/// the file could not be opened or has an unsupported depth.
pub fn wav_plan(header: Result<WavFormat, String>) -> (r: Result<(WavFormat, PcmKind), String>)
    ensures
        match header {
            Err(e) => r matches Err(m) && m@ == "Could not open WAV: "@ + e@,
            Ok(f) => match pcm_kind_of(f.bits_per_sample, f.int_samples) {
                Some(kind) => r == Ok::<(WavFormat, PcmKind), String>((f, kind)),
                None => r matches Err(m) && m@ == "Unsupported PCM bit depth: "@ + decimal_text(
                    f.bits_per_sample as nat,
                ),
            },
        },
{
    match header {
        Err(e) => Err(concat_text("Could not open WAV: ", e.as_str())),
        Ok(f) => {
            if !f.int_samples {
                Ok((f, PcmKind::Float))
            } else if f.bits_per_sample == 16 {
                Ok((f, PcmKind::I16))
            } else if f.bits_per_sample == 24 || f.bits_per_sample == 32 {
                Ok((f, PcmKind::I32))
            } else {
                Err(
                    concat_text(
                        "Unsupported PCM bit depth: ",
                        decimal(f.bits_per_sample as u64).as_str(),
                    ),
                )
            }
        },
    }
}

/// What follows the reading of samples: themselves, or the message.
pub fn wav_read<T>(samples: Result<Vec<T>, String>) -> (r: Result<Vec<T>, String>)
    ensures
        match samples {
            Ok(v) => r == Ok::<Vec<T>, String>(v),
            Err(e) => r matches Err(m) && m@ == "WAV read error: "@ + e@,
        },
{
    match samples {
        Ok(v) => Ok(v),
        Err(e) => Err(concat_text("WAV read error: ", e.as_str())),
    }
}

/// The samples of a decoded file. Float samples are left to the caller, who
/// reads them off the same bytes.
pub enum PcmData {
    I16(Vec<i16>),
    I32(Vec<i32>),
    Float,
}

/// A decoded file: its channels, interleaved in `data`, and its sample rate.
pub struct WavAudio {
    pub channels: u16,
    pub sample_rate: u32,
    pub data: PcmData,
}

/// What decoding a file gives, over what `hound` reads off it.
pub open spec fn decodes_to(bytes: Seq<u8>, r: Result<WavAudio, String>) -> bool {
    match wav_header_of(bytes) {
        Err(e) => r matches Err(m) && m@ == "Could not open WAV: "@ + e,
        Ok((channels, sample_rate, bits, int_samples)) => match pcm_kind_of(bits, int_samples) {
            None => r matches Err(m) && m@ == "Unsupported PCM bit depth: "@ + decimal_text(
                bits as nat,
            ),
            Some(PcmKind::Float) => r matches Ok(a) && a.channels == channels && a.sample_rate
                == sample_rate && a.data is Float,
            Some(PcmKind::I16) => match wav_i16_of(bytes) {
                Ok(s) => r matches Ok(a) && a.channels == channels && a.sample_rate == sample_rate
                    && (a.data matches PcmData::I16(v) && v@ == s),
                Err(e) => r matches Err(m) && m@ == "WAV read error: "@ + e,
            },
            Some(PcmKind::I32) => match wav_i32_of(bytes) {
                Ok(s) => r matches Ok(a) && a.channels == channels && a.sample_rate == sample_rate
                    && (a.data matches PcmData::I32(v) && v@ == s),
                Err(e) => r matches Err(m) && m@ == "WAV read error: "@ + e,
            },
        },
    }
}

/// Decodes the bytes of a WAV file.
pub fn decode_wav(bytes: &[u8]) -> (r: Result<WavAudio, String>)
    ensures
        decodes_to(bytes@, r),
{
    match wav_plan(wav_header(bytes)) {
        Err(message) => Err(message),
        Ok((format, kind)) => {
            let data = match kind {
                PcmKind::Float => PcmData::Float,
                PcmKind::I16 => match wav_read(wav_samples_i16(bytes)) {
                    Ok(samples) => PcmData::I16(samples),
                    Err(message) => {
                        return Err(message);
                    },
                },
                PcmKind::I32 => match wav_read(wav_samples_i32(bytes)) {
                    Ok(samples) => PcmData::I32(samples),
                    Err(message) => {
                        return Err(message);
                    },
                },
            };
            Ok(WavAudio { channels: format.channels, sample_rate: format.sample_rate, data })
        },
    }
}

/// Decoding keeps everything that is in the file: its channels, its rate, and all
/// of its samples in order, 16 bits as they are and 24 or 32 widened. A file
/// whose header or samples cannot be read is refused with the whole reason, and
/// so is any other depth.
pub proof fn law_decoding_keeps_every_sample(bytes: Seq<u8>, r: Result<WavAudio, String>)
    requires
        decodes_to(bytes, r),
    ensures
        wav_header_of(bytes) matches Err(e) ==> (r matches Err(m) && m@ == "Could not open WAV: "@
            + e),
        wav_header_of(bytes) matches Ok((channels, rate, bits, int_samples)) ==> {
            &&& r matches Ok(a) ==> a.channels == channels && a.sample_rate == rate
            &&& !int_samples ==> (r matches Ok(a) && a.data is Float)
            &&& int_samples && bits == 16 ==> match wav_i16_of(bytes) {
                Ok(s) => r matches Ok(a) && (a.data matches PcmData::I16(v) && v@ == s),
                Err(e) => r matches Err(m) && m@ == "WAV read error: "@ + e,
            }
            &&& int_samples && (bits == 24 || bits == 32) ==> match wav_i32_of(bytes) {
                Ok(s) => r matches Ok(a) && (a.data matches PcmData::I32(v) && v@ == s),
                Err(e) => r matches Err(m) && m@ == "WAV read error: "@ + e,
            }
            &&& int_samples && bits != 16 && bits != 24 && bits != 32 ==> (r matches Err(m) && m@
                == "Unsupported PCM bit depth: "@ + decimal_text(bits as nat))
        },
{
}

/// Only integers of 16, 24 or 32 bits are read, and floats of any.
pub proof fn law_depths_that_are_read(bits: u16)
    ensures
        pcm_kind_of(bits, false) == Some(PcmKind::Float),
        pcm_kind_of(bits, true) == Some(PcmKind::I16) <==> bits == 16,
        pcm_kind_of(bits, true) == Some(PcmKind::I32) <==> bits == 24 || bits == 32,
        pcm_kind_of(bits, true) is None <==> bits != 16 && bits != 24 && bits != 32,
{
}

} // verus!
