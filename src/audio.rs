use vstd::prelude::*;
use base64::Engine;
use crate::amount::{decimals_spec, get_decimals_for_coin, verify_amount_at, verify_amount_spec, SpokenAmount};
use crate::decision::{decide, verdict_spec, EmotionScores};
use crate::keywords::{analyze_stress_from_transcript, transcript_stress_spec};
use crate::text::{lower_of, upper_of};
use crate::types::{BioAuthResult, EnclaveError};
use crate::voice::NEUTRAL_STRESS;

verus! {

/// What the standard base64 engine (padded alphabet of RFC 4648) decodes a
/// string to, or `None` where it rejects it.
pub uninterp spec fn base64_decoded(s: Seq<char>) -> Option<Seq<u8>>;

#[verifier::external_type_specification]
#[verifier::external_body]
pub struct ExDecodeError(base64::DecodeError);

/// Relies on `base64::engine::general_purpose::STANDARD.decode`: the bytes
/// that the string encodes, or an error, as a function of the string alone.
#[verifier::external_body]
fn decode_base64(s: &str) -> (r: Result<Vec<u8>, base64::DecodeError>)
    ensures
        match r {
            Ok(b) => base64_decoded(s@) == Some(b@),
            Err(_) => base64_decoded(s@) == None::<Seq<u8>>,
        },
{
    base64::engine::general_purpose::STANDARD.decode(s)
}

/// Decodes base64 audio; the library's error says why it failed.
pub fn decode_audio(audio_base64: &str) -> (r: Result<Vec<u8>, EnclaveError>)
    ensures
        match r {
            Ok(b) => base64_decoded(audio_base64@) == Some(b@),
            Err(_) => base64_decoded(audio_base64@) == None::<Seq<u8>>,
        },
{
    match decode_base64(audio_base64) {
        Ok(b) => Ok(b),
        Err(_) => Err(EnclaveError::GenericError(String::from_str("Invalid audio base64"))),
    }
}

/// Audio container formats told apart by their first bytes.
#[derive(Debug, Clone, Copy, PartialEq, Eq)]
pub enum AudioFormat {
    Wav,
    Mp3,
    Ogg,
    Flac,
    Webm,
}

impl AudioFormat {
    /// The format's usual file extension.
    pub fn name(&self) -> (r: &'static str)
        ensures
            r@ == self.name_spec(),
    {
        match self {
            AudioFormat::Wav => "wav",
            AudioFormat::Mp3 => "mp3",
            AudioFormat::Ogg => "ogg",
            AudioFormat::Flac => "flac",
            AudioFormat::Webm => "webm",
        }
    }

    pub open spec fn name_spec(&self) -> Seq<char> {
        match self {
            AudioFormat::Wav => "wav"@,
            AudioFormat::Mp3 => "mp3"@,
            AudioFormat::Ogg => "ogg"@,
            AudioFormat::Flac => "flac"@,
            AudioFormat::Webm => "webm"@,
        }
    }
}

pub open spec fn starts4(b: Seq<u8>, c0: u8, c1: u8, c2: u8, c3: u8) -> bool {
    b[0] == c0 && b[1] == c1 && b[2] == c2 && b[3] == c3
}

/// The format that magic bytes announce: `RIFF` wav; `ID3` or an MPEG frame
/// sync (0xFF, then a byte with its top three bits set) mp3; `OggS` ogg;
/// `fLaC` flac; the EBML signature webm. Anything else, and anything shorter
/// than four bytes, is taken as wav.
pub open spec fn format_spec(b: Seq<u8>) -> AudioFormat {
    if b.len() < 4 {
        AudioFormat::Wav
    } else if starts4(b, 0x52, 0x49, 0x46, 0x46) {
        AudioFormat::Wav
    } else if (b[0] == 0x49 && b[1] == 0x44 && b[2] == 0x33) || (b[0] == 0xFF && (b[1] & 0xE0) == 0xE0) {
        AudioFormat::Mp3
    } else if starts4(b, 0x4F, 0x67, 0x67, 0x53) {
        AudioFormat::Ogg
    } else if starts4(b, 0x66, 0x4C, 0x61, 0x43) {
        AudioFormat::Flac
    } else if starts4(b, 0x1A, 0x45, 0xDF, 0xA3) {
        AudioFormat::Webm
    } else {
        AudioFormat::Wav
    }
}

/// Sniffs the container format of raw audio bytes.
pub fn detect_format(b: &Vec<u8>) -> (r: AudioFormat)
    ensures
        r == format_spec(b@),
{
    if b.len() < 4 {
        AudioFormat::Wav
    } else if b[0] == 0x52 && b[1] == 0x49 && b[2] == 0x46 && b[3] == 0x46 {
        AudioFormat::Wav
    } else if (b[0] == 0x49 && b[1] == 0x44 && b[2] == 0x33) || (b[0] == 0xFF && (b[1] & 0xE0) == 0xE0) {
        AudioFormat::Mp3
    } else if b[0] == 0x4F && b[1] == 0x67 && b[2] == 0x67 && b[3] == 0x53 {
        AudioFormat::Ogg
    } else if b[0] == 0x66 && b[1] == 0x4C && b[2] == 0x61 && b[3] == 0x43 {
        AudioFormat::Flac
    } else if b[0] == 0x1A && b[1] == 0x45 && b[2] == 0xDF && b[3] == 0xA3 {
        AudioFormat::Webm
    } else {
        AudioFormat::Wav
    }
}

/// The format name of base64 audio; "wav" when it does not decode.
pub open spec fn detect_audio_format_spec(s: Seq<char>) -> Seq<char> {
    match base64_decoded(s) {
        Some(b) => format_spec(b).name_spec(),
        None => "wav"@,
    }
}

/// Names the container format of base64-encoded audio.
pub fn detect_audio_format(audio_base64: &str) -> (r: String)
    ensures
        r@ == detect_audio_format_spec(audio_base64@),
{
    match decode_base64(audio_base64) {
        Ok(bytes) => String::from_str(detect_format(&bytes).name()),
        Err(_) => String::from_str("wav"),
    }
}

/// Outcome of analysing one voice confirmation; it stays inside the enclave.
#[derive(Debug, Clone)]
pub struct AudioAnalysisResult {
    pub transcript: String,
    pub stress_level: u8,
    pub amount: Option<SpokenAmount>,
    pub emotions: Option<EmotionScores>,
    pub amount_verified: bool,
}

/// The amount check of every analysis path (transcription provider and
/// offline analysis alike): with nothing expected every amount passes;
/// otherwise a detected amount must be present and, converted to minor units
/// (rounded half up), lie within one hundredth of the expected minor units
/// (`within_tolerance`: `|e - d| <= e / 100`, the boundary included). No
/// tolerance of one whole coin applies to amounts below one coin.
pub open spec fn amount_verified_spec(expected: Option<u64>, detected: Option<SpokenAmount>, d: nat) -> bool {
    match expected {
        Some(e) => verify_amount_spec(e, detected, d),
        None => true,
    }
}

pub fn amount_verified(expected: Option<u64>, detected: Option<SpokenAmount>, d: u32) -> (r: bool)
    requires
        d <= 19,
    ensures
        r == amount_verified_spec(expected, detected, d as nat),
{
    match expected {
        Some(e) => verify_amount_at(e, detected, d),
        None => true,
    }
}

/// Transcript that the offline analysis assigns to a recording of `len` bytes.
pub open spec fn mock_transcript_spec(len: int) -> Seq<char> {
    if len < 1000 {
        "confirm sending 5 SUI"@
    } else if len < 5000 {
        "yes confirm transfer of 10 SUI"@
    } else {
        "I confirm sending 100 SUI to the specified address"@
    }
}

/// Whole coins that the offline analysis hears in a recording of `len` bytes.
pub open spec fn mock_amount_spec(len: int) -> u64 {
    if len < 1000 {
        5
    } else if len < 5000 {
        10
    } else {
        100
    }
}

/// The offline analysis of a recording of `len` bytes.
pub open spec fn mock_analysis_spec(r: AudioAnalysisResult, len: int, expected: Option<u64>, d: nat) -> bool {
    &&& r.transcript@ == mock_transcript_spec(len)
    &&& r.stress_level as int == transcript_stress_spec(lower_of(mock_transcript_spec(len)), len)
    &&& r.amount == Some(SpokenAmount { units: mock_amount_spec(len), scale: 0 })
    &&& r.emotions.is_none()
    &&& r.amount_verified == amount_verified_spec(expected, r.amount, d)
}

/// Analysis without any provider: transcript and amount by recording size,
/// stress from the transcript's words and the size.
pub fn mock_analysis(audio_length: usize, expected: Option<u64>, decimals: u32) -> (r: AudioAnalysisResult)
    requires
        decimals <= 19,
    ensures
        mock_analysis_spec(r, audio_length as int, expected, decimals as nat),
{
    let (transcript, units) = if audio_length < 1000 {
        (String::from_str("confirm sending 5 SUI"), 5u64)
    } else if audio_length < 5000 {
        (String::from_str("yes confirm transfer of 10 SUI"), 10u64)
    } else {
        (String::from_str("I confirm sending 100 SUI to the specified address"), 100u64)
    };
    let stress_level = analyze_stress_from_transcript(transcript.as_str(), audio_length);
    let amount = Some(SpokenAmount::whole(units));
    let amount_verified = amount_verified(expected, amount, decimals);
    AudioAnalysisResult { transcript, stress_level, amount, emotions: None, amount_verified }
}

/// Offline analysis of base64 audio; fails only when the audio does not decode.
pub fn analyze_audio_mock(audio_base64: &str, expected_amount: Option<u64>, coin_type: &str) -> (r: Result<AudioAnalysisResult, EnclaveError>)
    ensures
        match r {
            Ok(a) => match base64_decoded(audio_base64@) {
                Some(b) => mock_analysis_spec(a, b.len() as int, expected_amount,
                    decimals_spec(upper_of(coin_type@)) as nat),
                None => false,
            },
            Err(_) => base64_decoded(audio_base64@) == None::<Seq<u8>>,
        },
{
    let bytes = match decode_audio(audio_base64) {
        Ok(b) => b,
        Err(e) => {
            return Err(e);
        },
    };
    let d = get_decimals_for_coin(coin_type);
    Ok(mock_analysis(bytes.len(), expected_amount, d))
}

/// Offline transcript of base64 audio, chosen by its size.
pub fn transcribe_audio_mock(audio_base64: &str) -> (r: Result<String, EnclaveError>)
    ensures
        match r {
            Ok(t) => match base64_decoded(audio_base64@) {
                Some(b) => t@ == mock_transcript_spec(b.len() as int),
                None => false,
            },
            Err(_) => base64_decoded(audio_base64@) == None::<Seq<u8>>,
        },
{
    let bytes = match decode_audio(audio_base64) {
        Ok(b) => b,
        Err(e) => {
            return Err(e);
        },
    };
    let n = bytes.len();
    if n < 1000 {
        Ok(String::from_str("confirm sending 5 SUI"))
    } else if n < 5000 {
        Ok(String::from_str("yes confirm transfer of 10 SUI"))
    } else {
        Ok(String::from_str("I confirm sending 100 SUI to the specified address"))
    }
}

/// Keyword stress of a transcript of base64 audio.
pub fn analyze_stress_mock(audio_base64: &str, transcript: &str) -> (r: Result<u8, EnclaveError>)
    ensures
        match r {
            Ok(s) => match base64_decoded(audio_base64@) {
                Some(b) => s as int == transcript_stress_spec(lower_of(transcript@), b.len() as int),
                None => false,
            },
            Err(_) => base64_decoded(audio_base64@) == None::<Seq<u8>>,
        },
{
    let bytes = match decode_audio(audio_base64) {
        Ok(b) => b,
        Err(e) => {
            return Err(e);
        },
    };
    Ok(analyze_stress_from_transcript(transcript, bytes.len()))
}

/// The analysis of audio that cannot be read: no transcript, neutral stress,
/// no amount.
pub open spec fn neutral_analysis_spec(r: AudioAnalysisResult, expected: Option<u64>) -> bool {
    &&& r.transcript@.len() == 0
    &&& r.stress_level == NEUTRAL_STRESS
    &&& r.amount.is_none()
    &&& r.emotions.is_none()
    &&& r.amount_verified == expected.is_none()
}

/// The last step of the fallback chain; it always yields an analysis: the
/// offline one, or the neutral one when the audio does not decode.
pub fn fallback_analysis(audio_base64: &str, expected_amount: Option<u64>, coin_type: &str) -> (r: AudioAnalysisResult)
    ensures
        match base64_decoded(audio_base64@) {
            Some(b) => mock_analysis_spec(r, b.len() as int, expected_amount,
                decimals_spec(upper_of(coin_type@)) as nat),
            None => neutral_analysis_spec(r, expected_amount),
        },
{
    match analyze_audio_mock(audio_base64, expected_amount, coin_type) {
        Ok(a) => a,
        Err(_) => AudioAnalysisResult {
            transcript: String::new(),
            stress_level: NEUTRAL_STRESS,
            amount: None,
            emotions: None,
            amount_verified: expected_amount.is_none(),
        },
    }
}

/// The verdict on an analysis.
pub fn verdict_of(analysis: &AudioAnalysisResult) -> (r: BioAuthResult)
    ensures
        r == verdict_spec(analysis.stress_level as int, analysis.amount_verified),
{
    decide(analysis.stress_level, analysis.amount_verified)
}

/// Stress and amount check of the offline path, from the audio, the expected
/// amount and the coin.
pub open spec fn offline_inputs(audio: Seq<char>, expected: Option<u64>, coin: Seq<char>) -> (int, bool) {
    match base64_decoded(audio) {
        Some(b) => {
            let len = b.len() as int;
            let d = decimals_spec(upper_of(coin)) as nat;
            (
                transcript_stress_spec(lower_of(mock_transcript_spec(len)), len),
                amount_verified_spec(expected, Some(SpokenAmount { units: mock_amount_spec(len), scale: 0 }), d),
            )
        },
        None => (NEUTRAL_STRESS as int, expected.is_none()),
    }
}

/// The verdict of the offline path.
pub open spec fn offline_verdict_spec(audio: Seq<char>, expected: Option<u64>, coin: Seq<char>) -> BioAuthResult {
    let i = offline_inputs(audio, expected, coin);
    verdict_spec(i.0, i.1)
}

/// The verdict on base64 audio when no provider is configured.
pub fn offline_verdict(audio_base64: &str, expected_amount: Option<u64>, coin_type: &str) -> (r: BioAuthResult)
    ensures
        r == offline_verdict_spec(audio_base64@, expected_amount, coin_type@),
{
    let a = fallback_analysis(audio_base64, expected_amount, coin_type);
    verdict_of(&a)
}

/// Without providers the verdict depends on the input alone: the same audio,
/// expected amount and coin always give the same verdict.
pub proof fn lemma_offline_verdict_deterministic(
    audio1: Seq<char>,
    audio2: Seq<char>,
    expected1: Option<u64>,
    expected2: Option<u64>,
    coin1: Seq<char>,
    coin2: Seq<char>,
)
    requires
        audio1 == audio2,
        expected1 == expected2,
        coin1 == coin2,
    ensures
        offline_verdict_spec(audio1, expected1, coin1) == offline_verdict_spec(audio2, expected2, coin2),
{
}

} // verus!
