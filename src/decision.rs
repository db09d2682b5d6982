use vstd::prelude::*;
use crate::types::BioAuthResult;
use crate::text::str_eq;

verus! {

/// Stress level from which a speaker is taken to be under duress.
pub const STRESS_THRESHOLD: u8 = 70;

/// Whether a stress level in `0..=100` indicates that the speaker is coerced.
pub open spec fn duress_spec(stress_level: int) -> bool {
    stress_level >= STRESS_THRESHOLD as int
}

/// True when the stress level reaches the duress threshold; such a verdict
/// locks the wallet.
pub fn is_under_duress(stress_level: u8) -> (r: bool)
    ensures
        r == duress_spec(stress_level as int),
{
    stress_level >= STRESS_THRESHOLD
}

/// The verdict on an attempt: duress whenever the stress level reaches the
/// threshold, whatever the amount; otherwise ok when the amount was verified,
/// else a wrong amount.
pub open spec fn verdict_spec(stress_level: int, amount_verified: bool) -> BioAuthResult {
    if duress_spec(stress_level) {
        BioAuthResult::Duress
    } else if amount_verified {
        BioAuthResult::Approved
    } else {
        BioAuthResult::InvalidAmount
    }
}

/// Decides an attempt from its final stress level and amount check.
pub fn decide(stress_level: u8, amount_verified: bool) -> (r: BioAuthResult)
    ensures
        r == verdict_spec(stress_level as int, amount_verified),
{
    if is_under_duress(stress_level) {
        BioAuthResult::Duress
    } else if amount_verified {
        BioAuthResult::Approved
    } else {
        BioAuthResult::InvalidAmount
    }
}

/// A stressed speaker is never approved, even with the right amount.
pub proof fn lemma_duress_has_priority(stress_level: int, amount_verified: bool)
    requires
        duress_spec(stress_level),
    ensures
        verdict_spec(stress_level, amount_verified) == BioAuthResult::Duress,
{
}

/// Per-emotion intensities, in millionths (`1_000_000` is full intensity).
#[derive(Debug, Clone, Copy, PartialEq, Eq)]
pub struct EmotionScores {
    pub fear: u32,
    pub anxiety: u32,
    pub distress: u32,
    pub anger: u32,
    pub sadness: u32,
    pub confusion: u32,
}

impl EmotionScores {
    /// All intensities zero.
    pub fn zero() -> (r: EmotionScores)
        ensures
            r.fear == 0 && r.anxiety == 0 && r.distress == 0 && r.anger == 0 && r.sadness == 0
                && r.confusion == 0,
    {
        EmotionScores { fear: 0, anxiety: 0, distress: 0, anger: 0, sadness: 0, confusion: 0 }
    }

    /// The scores with the emotion of a lower-case name set to `value`;
    /// unchanged for a name that is not scored.
    pub fn with_named(&self, name: &str, value: u32) -> (r: EmotionScores)
        ensures
            r == (if name@ == "fear"@ {
                EmotionScores { fear: value, ..*self }
            } else if name@ == "anxiety"@ {
                EmotionScores { anxiety: value, ..*self }
            } else if name@ == "distress"@ {
                EmotionScores { distress: value, ..*self }
            } else if name@ == "anger"@ {
                EmotionScores { anger: value, ..*self }
            } else if name@ == "sadness"@ {
                EmotionScores { sadness: value, ..*self }
            } else if name@ == "confusion"@ {
                EmotionScores { confusion: value, ..*self }
            } else {
                *self
            }),
    {
        if str_eq(name, "fear") {
            EmotionScores { fear: value, ..*self }
        } else if str_eq(name, "anxiety") {
            EmotionScores { anxiety: value, ..*self }
        } else if str_eq(name, "distress") {
            EmotionScores { distress: value, ..*self }
        } else if str_eq(name, "anger") {
            EmotionScores { anger: value, ..*self }
        } else if str_eq(name, "sadness") {
            EmotionScores { sadness: value, ..*self }
        } else if str_eq(name, "confusion") {
            EmotionScores { confusion: value, ..*self }
        } else {
            *self
        }
    }
}

/// Stress from emotions: `100 × (0.35 fear + 0.30 distress + 0.20 anxiety +
/// 0.10 anger + 0.05 sadness)`, rounded down and clamped to 100.
pub open spec fn emotion_stress_spec(e: EmotionScores) -> int {
    let weighted = 35 * (e.fear as int) + 30 * (e.distress as int) + 20 * (e.anxiety as int)
        + 10 * (e.anger as int) + 5 * (e.sadness as int);
    let s = weighted / 1_000_000;
    if s > 100 {
        100
    } else {
        s
    }
}

/// Maps emotion intensities to a stress level in `0..=100`.
pub fn calculate_stress_from_emotions(emotions: &EmotionScores) -> (r: u8)
    ensures
        r as int == emotion_stress_spec(*emotions),
        r <= 100,
{
    let weighted: u64 = 35 * emotions.fear as u64 + 30 * emotions.distress as u64 + 20
        * emotions.anxiety as u64 + 10 * emotions.anger as u64 + 5 * emotions.sadness as u64;
    let s = weighted / 1_000_000;
    if s > 100 {
        100
    } else {
        s as u8
    }
}

/// The mean of two stress levels, rounded half up.
pub open spec fn fused_stress_spec(provider: int, emotion: int) -> int {
    (provider + emotion + 1) / 2
}

/// Combines a provider's stress level with the emotion-derived one.
pub fn fuse_stress(provider: u8, emotion: u8) -> (r: u8)
    ensures
        r as int == fused_stress_spec(provider as int, emotion as int),
{
    ((provider as u16 + emotion as u16 + 1) / 2) as u8
}

} // verus!
