use vstd::prelude::*;
use crate::pitch::{estimate_pitch_and_jitter, pitch_spec};
use crate::scorer::{calculate_stress, stress_reasons_spec, stress_score_spec, AcousticFeatures, StressReason};
use crate::signal::{
    calculate_energy_variance, calculate_high_freq_ratio, energy_variance_spec, high_freq_ratio_spec, rms_micro,
    rms_micro_spec, zero_crossing_rate, zero_crossing_rate_spec, MAX_SAMPLES,
};
use crate::audio::{base64_decoded, decode_audio};
use crate::wav::{parse_wav, wav_readable, wav_samples, wav_sample_rate, WAV_HEADER_LEN};

verus! {

/// Stress level reported for audio that cannot be read.
pub const NEUTRAL_STRESS: u8 = 30;

/// Outcome of the acoustic analysis of one recording.
#[derive(Debug, Clone)]
pub struct StressAnalysis {
    pub stress_level: u8,
    pub features: AcousticFeatures,
    pub reasons: Vec<StressReason>,
}

/// The features of a sample buffer at a sample rate; all zero when it is empty.
pub open spec fn features_spec(s: Seq<i16>, sample_rate: int) -> AcousticFeatures {
    if s.len() == 0 {
        AcousticFeatures::neutral_spec()
    } else {
        let p = pitch_spec(s, sample_rate);
        AcousticFeatures {
            pitch_jitter: p.1 as u64,
            energy_variance: energy_variance_spec(s, sample_rate) as u64,
            zero_crossing_rate: zero_crossing_rate_spec(s, sample_rate) as u64,
            high_freq_ratio: high_freq_ratio_spec(s, sample_rate) as u64,
            rms_energy: rms_micro_spec(s, 0, s.len() as int) as u64,
            estimated_f0: p.0 as u64,
        }
    }
}

/// Computes the acoustic features of a buffer of 16-bit samples.
pub fn extract_features(samples: &Vec<i16>, sample_rate: u32) -> (r: AcousticFeatures)
    requires
        samples@.len() <= MAX_SAMPLES,
    ensures
        r == features_spec(samples@, sample_rate as int),
        r.pitch_jitter <= 1_000_000,
        r.energy_variance <= 2_000_000,
        r.high_freq_ratio <= 1_000_000,
{
    if samples.len() == 0 {
        return AcousticFeatures::neutral();
    }
    let rms = rms_micro(samples, 0, samples.len());
    let zcr = zero_crossing_rate(samples, sample_rate);
    let ev = calculate_energy_variance(samples, sample_rate);
    let (f0, jitter) = estimate_pitch_and_jitter(samples, sample_rate);
    let hf = calculate_high_freq_ratio(samples, sample_rate);
    AcousticFeatures {
        pitch_jitter: jitter,
        energy_variance: ev,
        zero_crossing_rate: zcr,
        high_freq_ratio: hf,
        rms_energy: rms,
        estimated_f0: f0,
    }
}

/// The analysis of a WAV file: for a readable file, its features, the score
/// of those and the reasons; otherwise the neutral level with zero features
/// and the single reason `Unparseable`. A readable file of more than
/// `MAX_SAMPLES` samples, beyond the analysis's arithmetic, gets the neutral
/// level with the single reason `TooLong`.
pub open spec fn voice_stress_spec(wav: Seq<u8>) -> (int, AcousticFeatures, Seq<StressReason>) {
    if wav_readable(wav) && wav_samples(wav).len() > MAX_SAMPLES {
        (NEUTRAL_STRESS as int, AcousticFeatures::neutral_spec(), seq![StressReason::TooLong])
    } else if wav_readable(wav) {
        let f = features_spec(wav_samples(wav), wav_sample_rate(wav));
        (stress_score_spec(f), f, stress_reasons_spec(f))
    } else {
        (NEUTRAL_STRESS as int, AcousticFeatures::neutral_spec(), seq![StressReason::Unparseable])
    }
}

/// Analyses a 16-bit PCM WAV recording for acoustic signs of stress. Audio
/// that cannot be read yields the neutral level, never an error.
pub fn analyze_voice_stress(wav_bytes: &Vec<u8>) -> (r: StressAnalysis)
    ensures
        (r.stress_level as int, r.features, r.reasons@) == voice_stress_spec(wav_bytes@),
        r.stress_level <= 100,
        r.reasons@.len() > 0,
{
    match parse_wav(wav_bytes) {
        None => {
            let mut reasons: Vec<StressReason> = Vec::new();
            reasons.push(StressReason::Unparseable);
            proof {
                assert(reasons@ =~= seq![StressReason::Unparseable]);
            }
            StressAnalysis {
                stress_level: NEUTRAL_STRESS,
                features: AcousticFeatures::neutral(),
                reasons,
            }
        },
        Some((samples, rate)) => {
            if samples.len() > MAX_SAMPLES {
                let mut reasons: Vec<StressReason> = Vec::new();
                reasons.push(StressReason::TooLong);
                proof {
                    assert(reasons@ =~= seq![StressReason::TooLong]);
                }
                return StressAnalysis {
                    stress_level: NEUTRAL_STRESS,
                    features: AcousticFeatures::neutral(),
                    reasons,
                };
            }
            let features = extract_features(&samples, rate);
            let (level, reasons) = calculate_stress(&features);
            StressAnalysis { stress_level: level, features, reasons }
        },
    }
}

/// The acoustic analysis of base64 audio: that of the decoded bytes, or the
/// neutral one when the text does not decode.
pub open spec fn voice_stress_base64_spec(audio: Seq<char>) -> (int, AcousticFeatures, Seq<StressReason>) {
    match base64_decoded(audio) {
        Some(b) => voice_stress_spec(b),
        None => (NEUTRAL_STRESS as int, AcousticFeatures::neutral_spec(), seq![StressReason::Unparseable]),
    }
}

/// Analyses base64-encoded WAV audio; undecodable input yields the neutral
/// level, never an error.
pub fn analyze_voice_stress_base64(audio_base64: &str) -> (r: StressAnalysis)
    ensures
        (r.stress_level as int, r.features, r.reasons@) == voice_stress_base64_spec(audio_base64@),
        r.stress_level <= 100,
{
    match decode_audio(audio_base64) {
        Ok(bytes) => analyze_voice_stress(&bytes),
        Err(_) => {
            let mut reasons: Vec<StressReason> = Vec::new();
            reasons.push(StressReason::Unparseable);
            proof {
                assert(reasons@ =~= seq![StressReason::Unparseable]);
            }
            StressAnalysis {
                stress_level: NEUTRAL_STRESS,
                features: AcousticFeatures::neutral(),
                reasons,
            }
        },
    }
}

} // verus!
