use vstd::prelude::*;
use crate::amount::SpokenAmount;
use crate::audio::{amount_verified, amount_verified_spec, AudioAnalysisResult};
use crate::decision::{calculate_stress_from_emotions, emotion_stress_spec, fuse_stress, fused_stress_spec, EmotionScores};

verus! {

/// What a transcription provider reports: the words, its stress estimate and
/// the amount it heard, if any.
#[derive(Debug, Clone)]
pub struct ProviderTranscript {
    pub transcript: String,
    pub stress_level: u8,
    pub amount: Option<SpokenAmount>,
}

/// Where the fallback chain stands.
#[derive(Debug, Clone, Copy, PartialEq, Eq)]
pub enum FusionPhase {
    /// Nothing tried yet.
    Pending,
    /// Waiting for the transcription provider.
    TriedRemote,
    /// Waiting for the emotion provider.
    TriedEmotion,
    /// Waiting for the offline analysis.
    Fallback,
    /// The analysis is final.
    Done,
}

/// What the host reports back to the chain.
#[derive(Debug, Clone)]
pub enum FusionEvent {
    Begin,
    Transcribed(ProviderTranscript),
    TranscriptionFailed,
    EmotionsMeasured(EmotionScores),
    EmotionFailed,
    FallbackAnalysed(AudioAnalysisResult),
}

/// What the host must do next.
#[derive(Debug, Clone, Copy, PartialEq, Eq)]
pub enum FusionAction {
    CallTranscription,
    CallEmotion,
    RunFallback,
    Finish,
    /// The event did not fit the phase and was ignored.
    Wait,
}

/// The fallback chain of stress sources: transcription provider, then the
/// emotion provider to refine its stress, and the offline analysis when the
/// transcription provider is missing or fails.
#[derive(Debug, Clone)]
pub struct StressFusion {
    pub phase: FusionPhase,
    pub transcription_configured: bool,
    pub emotion_configured: bool,
    pub expected_amount: Option<u64>,
    pub decimals: u32,
    pub result: Option<AudioAnalysisResult>,
}

/// A provider's stress estimate, clamped to `0..=100`.
pub open spec fn clamp_stress(s: u8) -> u8 {
    if s > 100 {
        100
    } else {
        s
    }
}

/// The analysis taken from a transcription provider's report; its stress
/// estimate is clamped to 100 and its amount is checked by
/// `amount_verified_spec`, the tolerance of one hundredth of the expected
/// minor units.
pub open spec fn from_transcript_spec(t: ProviderTranscript, expected: Option<u64>, d: nat) -> AudioAnalysisResult {
    AudioAnalysisResult {
        transcript: t.transcript,
        stress_level: clamp_stress(t.stress_level),
        amount: t.amount,
        emotions: None,
        amount_verified: amount_verified_spec(expected, t.amount, d),
    }
}

/// An analysis whose stress is refined by emotion intensities.
pub open spec fn with_emotions_spec(a: AudioAnalysisResult, e: EmotionScores) -> AudioAnalysisResult {
    AudioAnalysisResult {
        stress_level: fused_stress_spec(a.stress_level as int, emotion_stress_spec(e)) as u8,
        emotions: Some(e),
        ..a
    }
}

impl StressFusion {
    pub open spec fn wf(&self) -> bool {
        &&& self.decimals <= 19
        &&& (self.phase == FusionPhase::TriedEmotion ==> self.result.is_some())
        &&& (self.phase == FusionPhase::Done ==> self.result.is_some())
        &&& (self.result.is_some() ==> self.result.unwrap().stress_level <= 100)
    }

    /// A chain that has tried nothing; `decimals` are those of the coin.
    pub fn new(transcription_configured: bool, emotion_configured: bool, expected_amount: Option<u64>, decimals: u32) -> (r: StressFusion)
        requires
            decimals <= 19,
        ensures
            r.wf(),
            r.phase == FusionPhase::Pending,
            r.transcription_configured == transcription_configured,
            r.emotion_configured == emotion_configured,
            r.expected_amount == expected_amount,
            r.decimals == decimals,
            r.result.is_none(),
    {
        StressFusion {
            phase: FusionPhase::Pending,
            transcription_configured,
            emotion_configured,
            expected_amount,
            decimals,
            result: None,
        }
    }

    /// Advances the chain by one event and says what to do next. An event that
    /// does not fit the phase changes nothing.
    pub fn step(&mut self, event: FusionEvent) -> (a: FusionAction)
        requires
            old(self).wf(),
        ensures
            final(self).wf(),
            final(self).result.is_some() ==> final(self).result.unwrap().stress_level <= 100,
            final(self).transcription_configured == old(self).transcription_configured,
            final(self).emotion_configured == old(self).emotion_configured,
            final(self).expected_amount == old(self).expected_amount,
            final(self).decimals == old(self).decimals,
            a == FusionAction::Finish <==> final(self).phase == FusionPhase::Done && old(self).phase != FusionPhase::Done,
            match (old(self).phase, event) {
                (FusionPhase::Pending, FusionEvent::Begin) => final(self).result == old(self).result && if old(self).transcription_configured {
                    final(self).phase == FusionPhase::TriedRemote && a == FusionAction::CallTranscription
                } else {
                    final(self).phase == FusionPhase::Fallback && a == FusionAction::RunFallback
                },
                (FusionPhase::TriedRemote, FusionEvent::Transcribed(t)) => final(self).result == Some(
                    from_transcript_spec(t, old(self).expected_amount, old(self).decimals as nat),
                ) && if old(self).emotion_configured {
                    final(self).phase == FusionPhase::TriedEmotion && a == FusionAction::CallEmotion
                } else {
                    final(self).phase == FusionPhase::Done && a == FusionAction::Finish
                },
                (FusionPhase::TriedRemote, FusionEvent::TranscriptionFailed) => final(self).result
                    == old(self).result && final(self).phase == FusionPhase::Fallback && a
                    == FusionAction::RunFallback,
                (FusionPhase::TriedEmotion, FusionEvent::EmotionsMeasured(e)) => final(self).result
                    == Some(with_emotions_spec(old(self).result.unwrap(), e)) && final(self).phase
                    == FusionPhase::Done && a == FusionAction::Finish,
                (FusionPhase::TriedEmotion, FusionEvent::EmotionFailed) => final(self).result
                    == old(self).result && final(self).phase == FusionPhase::Done && a
                    == FusionAction::Finish,
                (FusionPhase::Fallback, FusionEvent::FallbackAnalysed(r)) => final(self).result
                    == Some(AudioAnalysisResult { stress_level: clamp_stress(r.stress_level), ..r }) && final(self).phase == FusionPhase::Done && a == FusionAction::Finish,
                _ => final(self).result == old(self).result && final(self).phase == old(self).phase
                    && a == FusionAction::Wait,
            },
    {
        match (self.phase, event) {
            (FusionPhase::Pending, FusionEvent::Begin) => {
                if self.transcription_configured {
                    self.phase = FusionPhase::TriedRemote;
                    FusionAction::CallTranscription
                } else {
                    self.phase = FusionPhase::Fallback;
                    FusionAction::RunFallback
                }
            },
            (FusionPhase::TriedRemote, FusionEvent::Transcribed(t)) => {
                let verified = amount_verified(self.expected_amount, t.amount, self.decimals);
                self.result = Some(
                    AudioAnalysisResult {
                        transcript: t.transcript,
                        stress_level: if t.stress_level > 100 { 100 } else { t.stress_level },
                        amount: t.amount,
                        emotions: None,
                        amount_verified: verified,
                    },
                );
                if self.emotion_configured {
                    self.phase = FusionPhase::TriedEmotion;
                    FusionAction::CallEmotion
                } else {
                    self.phase = FusionPhase::Done;
                    FusionAction::Finish
                }
            },
            (FusionPhase::TriedRemote, FusionEvent::TranscriptionFailed) => {
                self.phase = FusionPhase::Fallback;
                FusionAction::RunFallback
            },
            (FusionPhase::TriedEmotion, FusionEvent::EmotionsMeasured(e)) => {
                let prev = self.result.take();
                match prev {
                    Some(a) => {
                        let emotion = calculate_stress_from_emotions(&e);
                        let stress = fuse_stress(a.stress_level, emotion);
                        self.result = Some(
                            AudioAnalysisResult { stress_level: stress, emotions: Some(e), ..a },
                        );
                    },
                    None => {},
                }
                self.phase = FusionPhase::Done;
                FusionAction::Finish
            },
            (FusionPhase::TriedEmotion, FusionEvent::EmotionFailed) => {
                self.phase = FusionPhase::Done;
                FusionAction::Finish
            },
            (FusionPhase::Fallback, FusionEvent::FallbackAnalysed(r)) => {
                let s = if r.stress_level > 100 { 100 } else { r.stress_level };
                self.result = Some(AudioAnalysisResult { stress_level: s, ..r });
                self.phase = FusionPhase::Done;
                FusionAction::Finish
            },
            _ => FusionAction::Wait,
        }
    }
}

} // verus!
