use vstd::prelude::*;

verus! {

/// Acoustic features of one recording, in fixed point.
///
/// Ratios are given in millionths (`1_000_000` stands for `1.0`) and rounded
/// down; frequencies and rates in thousandths of a unit per second.
#[derive(Debug, Clone, Copy, PartialEq, Eq)]
pub struct AcousticFeatures {
    /// Mean period-to-period change divided by the mean period, in millionths
    /// (at most `1_000_000`).
    pub pitch_jitter: u64,
    /// Coefficient of variation of voiced frame loudness, in millionths
    /// (at most `2_000_000`).
    pub energy_variance: u64,
    /// Sign changes per second, in thousandths.
    pub zero_crossing_rate: u64,
    /// High-passed energy over total energy, in millionths (at most `1_000_000`).
    pub high_freq_ratio: u64,
    /// Root mean square amplitude, in millionths of full scale.
    pub rms_energy: u64,
    /// Estimated fundamental frequency, in thousandths of a hertz.
    pub estimated_f0: u64,
}

impl AcousticFeatures {
    /// The feature set of silence or of audio that could not be read.
    pub fn neutral() -> (r: AcousticFeatures)
        ensures
            r == Self::neutral_spec(),
    {
        AcousticFeatures {
            pitch_jitter: 0,
            energy_variance: 0,
            zero_crossing_rate: 0,
            high_freq_ratio: 0,
            rms_energy: 0,
            estimated_f0: 0,
        }
    }

    pub open spec fn neutral_spec() -> AcousticFeatures {
        AcousticFeatures {
            pitch_jitter: 0,
            energy_variance: 0,
            zero_crossing_rate: 0,
            high_freq_ratio: 0,
            rms_energy: 0,
            estimated_f0: 0,
        }
    }
}

/// Why a recording scored as it did.
#[derive(Debug, Clone, Copy, PartialEq, Eq)]
pub enum StressReason {
    HighTremor,
    ModerateInstability,
    SlightInstability,
    HighVolumeInstability,
    ModerateVolumeFluctuation,
    SlightVolumeFluctuation,
    VeryTenseVoice,
    TenseVoice,
    SlightlyTenseVoice,
    VeryHighPitch,
    ElevatedPitch,
    RaisedPitch,
    Calm,
    Unparseable,
    TooLong,
}

impl StressReason {
    pub open spec fn message_spec(&self) -> Seq<char> {
        match self {
            StressReason::HighTremor => "High voice tremor"@,
            StressReason::ModerateInstability => "Moderate voice instability"@,
            StressReason::SlightInstability => "Slight voice instability"@,
            StressReason::HighVolumeInstability => "High volume instability"@,
            StressReason::ModerateVolumeFluctuation => "Moderate volume fluctuation"@,
            StressReason::SlightVolumeFluctuation => "Slight volume fluctuation"@,
            StressReason::VeryTenseVoice => "Very tense voice"@,
            StressReason::TenseVoice => "Tense voice detected"@,
            StressReason::SlightlyTenseVoice => "Slightly tense voice"@,
            StressReason::VeryHighPitch => "Very high pitch"@,
            StressReason::ElevatedPitch => "Elevated pitch"@,
            StressReason::RaisedPitch => "Slightly raised pitch"@,
            StressReason::Calm => "Voice sounds calm"@,
            StressReason::Unparseable => "Could not parse audio"@,
            StressReason::TooLong => "Recording too long to analyse"@,
        }
    }

    /// A sentence describing the reason.
    pub fn message(&self) -> (r: &'static str)
        ensures
            r@ == self.message_spec(),
    {
        match self {
            StressReason::HighTremor => "High voice tremor",
            StressReason::ModerateInstability => "Moderate voice instability",
            StressReason::SlightInstability => "Slight voice instability",
            StressReason::HighVolumeInstability => "High volume instability",
            StressReason::ModerateVolumeFluctuation => "Moderate volume fluctuation",
            StressReason::SlightVolumeFluctuation => "Slight volume fluctuation",
            StressReason::VeryTenseVoice => "Very tense voice",
            StressReason::TenseVoice => "Tense voice detected",
            StressReason::SlightlyTenseVoice => "Slightly tense voice",
            StressReason::VeryHighPitch => "Very high pitch",
            StressReason::ElevatedPitch => "Elevated pitch",
            StressReason::RaisedPitch => "Slightly raised pitch",
            StressReason::Calm => "Voice sounds calm",
            StressReason::Unparseable => "Could not parse audio",
            StressReason::TooLong => "Recording too long to analyse",
        }
    }
}

/// Stress added by every recording before any band is considered.
pub const BASELINE_STRESS: u64 = 10;

pub const JITTER_HIGH: u64 = 80_000;
pub const JITTER_MODERATE: u64 = 50_000;
pub const JITTER_SLIGHT: u64 = 30_000;
pub const ENERGY_HIGH: u64 = 800_000;
pub const ENERGY_MODERATE: u64 = 500_000;
pub const ENERGY_SLIGHT: u64 = 350_000;
pub const HF_HIGH: u64 = 550_000;
pub const HF_MODERATE: u64 = 400_000;
pub const HF_SLIGHT: u64 = 300_000;
pub const F0_HIGH: u64 = 300_000;
pub const F0_ELEVATED: u64 = 250_000;
pub const F0_RAISED: u64 = 200_000;

/// Score of one feature: the first band (from the top) whose cut-point it
/// exceeds gives its score, none gives 0.
pub open spec fn band_score(v: u64, hi: u64, mid: u64, lo: u64, s_hi: int, s_mid: int, s_lo: int) -> int {
    if v > hi {
        s_hi
    } else if v > mid {
        s_mid
    } else if v > lo {
        s_lo
    } else {
        0
    }
}

pub open spec fn jitter_score(f: AcousticFeatures) -> int {
    band_score(f.pitch_jitter, JITTER_HIGH, JITTER_MODERATE, JITTER_SLIGHT, 30, 20, 10)
}

pub open spec fn energy_score(f: AcousticFeatures) -> int {
    band_score(f.energy_variance, ENERGY_HIGH, ENERGY_MODERATE, ENERGY_SLIGHT, 25, 15, 8)
}

pub open spec fn high_freq_score(f: AcousticFeatures) -> int {
    band_score(f.high_freq_ratio, HF_HIGH, HF_MODERATE, HF_SLIGHT, 25, 15, 5)
}

pub open spec fn pitch_score(f: AcousticFeatures) -> int {
    band_score(f.estimated_f0, F0_HIGH, F0_ELEVATED, F0_RAISED, 20, 12, 5)
}

/// The stress score of a feature set: the band scores plus the baseline,
/// clamped to 100.
pub open spec fn stress_score_spec(f: AcousticFeatures) -> int {
    let total = jitter_score(f) + energy_score(f) + high_freq_score(f) + pitch_score(f)
        + BASELINE_STRESS as int;
    if total > 100 {
        100
    } else {
        total
    }
}

/// The reason that one feature contributes, if its value is in a band.
pub open spec fn band_reason(v: u64, hi: u64, mid: u64, lo: u64, r_hi: StressReason, r_mid: StressReason, r_lo: StressReason) -> Seq<StressReason> {
    if v > hi {
        seq![r_hi]
    } else if v > mid {
        seq![r_mid]
    } else if v > lo {
        seq![r_lo]
    } else {
        seq![]
    }
}

/// The reasons of a feature set, in the order jitter, loudness, tension,
/// pitch; a single `Calm` when no band is reached.
pub open spec fn stress_reasons_spec(f: AcousticFeatures) -> Seq<StressReason> {
    let all = band_reason(f.pitch_jitter, JITTER_HIGH, JITTER_MODERATE, JITTER_SLIGHT,
        StressReason::HighTremor, StressReason::ModerateInstability, StressReason::SlightInstability)
        + band_reason(f.energy_variance, ENERGY_HIGH, ENERGY_MODERATE, ENERGY_SLIGHT,
        StressReason::HighVolumeInstability, StressReason::ModerateVolumeFluctuation,
        StressReason::SlightVolumeFluctuation)
        + band_reason(f.high_freq_ratio, HF_HIGH, HF_MODERATE, HF_SLIGHT,
        StressReason::VeryTenseVoice, StressReason::TenseVoice, StressReason::SlightlyTenseVoice)
        + band_reason(f.estimated_f0, F0_HIGH, F0_ELEVATED, F0_RAISED,
        StressReason::VeryHighPitch, StressReason::ElevatedPitch, StressReason::RaisedPitch);
    if all.len() == 0 {
        seq![StressReason::Calm]
    } else {
        all
    }
}

fn push_band(reasons: &mut Vec<StressReason>, v: u64, hi: u64, mid: u64, lo: u64,
    s_hi: u64, s_mid: u64, s_lo: u64,
    r_hi: StressReason, r_mid: StressReason, r_lo: StressReason) -> (score: u64)
    requires
        s_hi <= 30 && s_mid <= 30 && s_lo <= 30,
    ensures
        score as int == band_score(v, hi, mid, lo, s_hi as int, s_mid as int, s_lo as int),
        final(reasons)@ == old(reasons)@ + band_reason(v, hi, mid, lo, r_hi, r_mid, r_lo),
{
    if v > hi {
        reasons.push(r_hi);
        s_hi
    } else if v > mid {
        reasons.push(r_mid);
        s_mid
    } else if v > lo {
        reasons.push(r_lo);
        s_lo
    } else {
        proof { assert(old(reasons)@ + seq![] =~= old(reasons)@); }
        0
    }
}

/// Maps a feature set to a stress level in `0..=100` and its reasons.
pub fn calculate_stress(features: &AcousticFeatures) -> (r: (u8, Vec<StressReason>))
    ensures
        r.0 as int == stress_score_spec(*features),
        r.0 <= 100,
        r.1@ == stress_reasons_spec(*features),
        r.1@.len() > 0,
{
    let mut reasons: Vec<StressReason> = Vec::new();
    let j = push_band(&mut reasons, features.pitch_jitter, JITTER_HIGH, JITTER_MODERATE,
        JITTER_SLIGHT, 30, 20, 10, StressReason::HighTremor, StressReason::ModerateInstability,
        StressReason::SlightInstability);
    let e = push_band(&mut reasons, features.energy_variance, ENERGY_HIGH, ENERGY_MODERATE,
        ENERGY_SLIGHT, 25, 15, 8, StressReason::HighVolumeInstability,
        StressReason::ModerateVolumeFluctuation, StressReason::SlightVolumeFluctuation);
    let h = push_band(&mut reasons, features.high_freq_ratio, HF_HIGH, HF_MODERATE, HF_SLIGHT,
        25, 15, 5, StressReason::VeryTenseVoice, StressReason::TenseVoice,
        StressReason::SlightlyTenseVoice);
    let p = push_band(&mut reasons, features.estimated_f0, F0_HIGH, F0_ELEVATED, F0_RAISED,
        20, 12, 5, StressReason::VeryHighPitch, StressReason::ElevatedPitch,
        StressReason::RaisedPitch);
    proof {
        let f = *features;
        assert(reasons@ =~= Seq::<StressReason>::empty()
            + band_reason(f.pitch_jitter, JITTER_HIGH, JITTER_MODERATE, JITTER_SLIGHT,
            StressReason::HighTremor, StressReason::ModerateInstability, StressReason::SlightInstability)
            + band_reason(f.energy_variance, ENERGY_HIGH, ENERGY_MODERATE, ENERGY_SLIGHT,
            StressReason::HighVolumeInstability, StressReason::ModerateVolumeFluctuation,
            StressReason::SlightVolumeFluctuation)
            + band_reason(f.high_freq_ratio, HF_HIGH, HF_MODERATE, HF_SLIGHT,
            StressReason::VeryTenseVoice, StressReason::TenseVoice, StressReason::SlightlyTenseVoice)
            + band_reason(f.estimated_f0, F0_HIGH, F0_ELEVATED, F0_RAISED,
            StressReason::VeryHighPitch, StressReason::ElevatedPitch, StressReason::RaisedPitch));
    }
    if reasons.len() == 0 {
        reasons.push(StressReason::Calm);
    }
    let total = j + e + h + p + BASELINE_STRESS;
    let level: u8 = if total > 100 { 100 } else { total as u8 };
    (level, reasons)
}

} // verus!
