use ram_voice::amount::SpokenAmount;
use ram_voice::audio::AudioAnalysisResult;
use ram_voice::decision::EmotionScores;
use ram_voice::events::{default_limit, EventId};
use ram_voice::fusion::{FusionAction, FusionEvent, FusionPhase, ProviderTranscript, StressFusion};
use ram_voice::hex::decode;
use ram_voice::types::{BioAuthResult, EnclaveError};

#[test]
fn test_bioauth_result_codes() {
    assert_eq!(BioAuthResult::Approved as u8, 0);
    assert_eq!(BioAuthResult::InvalidAmount as u8, 1);
    assert_eq!(BioAuthResult::Duress as u8, 2);
}

#[test]
fn bioauth_result_names_and_codes() {
    assert_eq!(BioAuthResult::Approved.code(), 0);
    assert_eq!(BioAuthResult::Duress.code(), 2);
    assert_eq!(BioAuthResult::Approved.as_str(), "ok");
    assert_eq!(BioAuthResult::InvalidAmount.as_str(), "invalid_amount");
    assert_eq!(BioAuthResult::Duress.as_str(), "duress");
    assert_eq!(EnclaveError::GenericError("boom".to_string()).message(), "boom");
}

#[test]
fn cursor_round_trip() {
    let id = EventId { tx_digest: "AbC123".to_string(), event_seq: "7".to_string() };
    let c = id.to_cursor();
    assert_eq!(c, "AbC123:7");
    let back = EventId::from_cursor(&c).unwrap();
    assert_eq!(back.tx_digest, "AbC123");
    assert_eq!(back.event_seq, "7");
    assert!(EventId::from_cursor("a:b:c").is_none());
    assert!(EventId::from_cursor("abc").is_none());
    let empty = EventId::from_cursor(":").unwrap();
    assert_eq!(empty.tx_digest, "");
    assert_eq!(empty.event_seq, "");
    assert_eq!(default_limit(), 50);
}

#[test]
fn hex_decoding() {
    assert_eq!(decode("00ff10Ab").unwrap(), vec![0x00, 0xff, 0x10, 0xab]);
    assert_eq!(decode("").unwrap(), Vec::<u8>::new());
    assert_eq!(decode("+f").unwrap(), vec![0x0f]);
    assert_eq!(decode("abc").unwrap_err(), "Hex string must have even length");
    assert!(decode("zz").is_err());
    assert!(decode("é0").is_err());
}

fn transcript(stress: u8, amount: Option<SpokenAmount>) -> ProviderTranscript {
    ProviderTranscript { transcript: "confirm 5 SUI".to_string(), stress_level: stress, amount }
}

#[test]
fn fusion_with_both_providers() {
    let mut f = StressFusion::new(true, true, Some(5_000_000_000), 9);
    assert_eq!(f.step(FusionEvent::Begin), FusionAction::CallTranscription);
    assert_eq!(f.step(FusionEvent::Transcribed(transcript(40, Some(SpokenAmount::whole(5))))), FusionAction::CallEmotion);
    let e = EmotionScores { fear: 1_000_000, anxiety: 1_000_000, distress: 1_000_000, anger: 0, sadness: 0, confusion: 0 };
    assert_eq!(f.step(FusionEvent::EmotionsMeasured(e)), FusionAction::Finish);
    assert_eq!(f.phase, FusionPhase::Done);
    let r = f.result.unwrap();
    // emotion stress 85, provider 40: (40 + 85 + 1) / 2
    assert_eq!(r.stress_level, 63);
    assert!(r.amount_verified);
    assert_eq!(r.emotions, Some(e));
}

#[test]
fn fusion_keeps_provider_stress_when_emotions_fail() {
    let mut f = StressFusion::new(true, true, Some(5_000_000_000), 9);
    f.step(FusionEvent::Begin);
    f.step(FusionEvent::Transcribed(transcript(75, Some(SpokenAmount::whole(6)))));
    assert_eq!(f.step(FusionEvent::EmotionFailed), FusionAction::Finish);
    let r = f.result.unwrap();
    assert_eq!(r.stress_level, 75);
    assert!(!r.amount_verified);
}

#[test]
fn fusion_falls_back() {
    let mut f = StressFusion::new(true, false, None, 9);
    f.step(FusionEvent::Begin);
    assert_eq!(f.step(FusionEvent::TranscriptionFailed), FusionAction::RunFallback);
    assert_eq!(f.phase, FusionPhase::Fallback);
    let fallback = AudioAnalysisResult { transcript: String::new(), stress_level: 30, amount: None, emotions: None, amount_verified: true };
    assert_eq!(f.step(FusionEvent::FallbackAnalysed(fallback)), FusionAction::Finish);
    assert_eq!(f.result.unwrap().stress_level, 30);

    let mut g = StressFusion::new(false, true, None, 9);
    assert_eq!(g.step(FusionEvent::Begin), FusionAction::RunFallback);
    assert_eq!(g.step(FusionEvent::EmotionFailed), FusionAction::Wait);
    assert_eq!(g.phase, FusionPhase::Fallback);
}

#[test]
fn fusion_without_emotion_provider_finishes_after_transcript() {
    let mut f = StressFusion::new(true, false, None, 6);
    f.step(FusionEvent::Begin);
    assert_eq!(f.step(FusionEvent::Transcribed(transcript(10, None))), FusionAction::Finish);
    let r = f.result.unwrap();
    assert!(r.amount_verified);
    assert_eq!(r.transcript, "confirm 5 SUI");
}

#[test]
fn fusion_clamps_provider_stress() {
    let mut f = StressFusion::new(true, false, None, 9);
    f.step(FusionEvent::Begin);
    f.step(FusionEvent::Transcribed(transcript(250, None)));
    assert_eq!(f.result.unwrap().stress_level, 100);
}
