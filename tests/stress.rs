use base64::{engine::general_purpose::STANDARD, Engine as _};
use ram_voice::audio::{analyze_audio_mock, analyze_stress_mock, detect_audio_format, offline_verdict, transcribe_audio_mock, fallback_analysis};
use ram_voice::decision::{calculate_stress_from_emotions, decide, fuse_stress, is_under_duress, EmotionScores};
use ram_voice::keywords::analyze_stress_from_transcript;
use ram_voice::types::BioAuthResult;

#[test]
fn test_stress_threshold() {
    assert!(!is_under_duress(50));
    assert!(!is_under_duress(69));
    assert!(is_under_duress(70));
    assert!(is_under_duress(100));
}

#[test]
fn test_duress_keywords_in_transcript() {
    let audio = STANDARD.encode(&[0u8; 100]);

    let normal_stress = analyze_stress_mock(&audio, "confirm sending 5 SUI").unwrap();
    let help_stress = analyze_stress_mock(&audio, "help please send the money").unwrap();
    let forced_stress = analyze_stress_mock(&audio, "I am forced to send this").unwrap();

    assert!(help_stress > normal_stress, "'help' should increase stress");
    assert!(forced_stress > normal_stress, "'forced' should increase stress");
    assert!(is_under_duress(help_stress), "'help please' should trigger duress");
}

#[test]
fn test_vietnamese_duress_keywords() {
    let stress = analyze_stress_from_transcript("giúp tôi đi", 100);
    assert!(stress >= 50, "Vietnamese 'giúp' should increase stress");
}

#[test]
fn keyword_stress_exact_values() {
    assert_eq!(analyze_stress_from_transcript("confirm sending 5 SUI", 100), 20);
    assert_eq!(analyze_stress_from_transcript("HELP me", 100), 70);
    assert_eq!(analyze_stress_from_transcript("confirm sending 5 SUI", 10_001), 35);
    assert_eq!(analyze_stress_from_transcript("làm ơn gửi", 20_000), 85);
    assert_eq!(analyze_stress_from_transcript("confirm", 10_000), 20);
}

#[test]
fn stress_mock_rejects_bad_base64() {
    assert!(analyze_stress_mock("not base64!", "help").is_err());
    assert!(transcribe_audio_mock("%%%").is_err());
}

#[test]
fn test_detect_audio_format() {
    // WAV header
    let wav = STANDARD.encode(b"RIFF....WAVEfmt ");
    assert_eq!(detect_audio_format(&wav), "wav");

    // MP3 with ID3
    let mp3_id3 = STANDARD.encode(b"ID3....");
    assert_eq!(detect_audio_format(&mp3_id3), "mp3");

    // Unknown defaults to WAV
    let unknown = STANDARD.encode(b"????");
    assert_eq!(detect_audio_format(&unknown), "wav");
}

#[test]
fn detect_other_formats() {
    assert_eq!(detect_audio_format(&STANDARD.encode([0xFFu8, 0xFB, 0x90, 0x00])), "mp3");
    assert_eq!(detect_audio_format(&STANDARD.encode(b"OggS\x00\x02")), "ogg");
    assert_eq!(detect_audio_format(&STANDARD.encode(b"fLaC\x00")), "flac");
    assert_eq!(detect_audio_format(&STANDARD.encode([0x1Au8, 0x45, 0xDF, 0xA3, 0x01])), "webm");
    assert_eq!(detect_audio_format(&STANDARD.encode(b"ID3")), "wav");
    assert_eq!(detect_audio_format("@@not base64@@"), "wav");
}

#[test]
fn test_emotion_scores_to_stress() {
    // Low negative emotions = low stress
    let calm = EmotionScores {
        fear: 100_000,
        anxiety: 100_000,
        distress: 100_000,
        anger: 0,
        sadness: 0,
        confusion: 0,
    };
    assert!(calculate_stress_from_emotions(&calm) < 50);

    // High fear/distress = high stress (duress)
    let duress = EmotionScores {
        fear: 900_000,
        anxiety: 800_000,
        distress: 850_000,
        anger: 300_000,
        sadness: 500_000,
        confusion: 600_000,
    };
    assert!(calculate_stress_from_emotions(&duress) >= 70);
}

#[test]
fn emotion_stress_exact_and_clamped() {
    let calm = EmotionScores { fear: 100_000, anxiety: 100_000, distress: 100_000, anger: 0, sadness: 0, confusion: 0 };
    assert_eq!(calculate_stress_from_emotions(&calm), 8);
    let full = EmotionScores { fear: 4_000_000_000, anxiety: 0, distress: 0, anger: 0, sadness: 0, confusion: 0 };
    assert_eq!(calculate_stress_from_emotions(&full), 100);
    assert_eq!(calculate_stress_from_emotions(&EmotionScores::zero()), 0);
}

#[test]
fn fused_stress_rounds_half_up() {
    assert_eq!(fuse_stress(60, 79), 70);
    assert_eq!(fuse_stress(60, 78), 69);
    assert_eq!(fuse_stress(255, 255), 255);
}

#[test]
fn test_mock_analysis() {
    let audio = STANDARD.encode(&[0u8; 100]);

    let result = analyze_audio_mock(&audio, Some(5_000_000_000), "SUI").unwrap();
    assert!(!result.transcript.is_empty());
    assert!(result.stress_level < 70); // Normal mock shouldn't trigger duress
    assert!(result.amount.is_some());
}

#[test]
fn mock_analysis_buckets() {
    let small = analyze_audio_mock(&STANDARD.encode(vec![0u8; 999]), Some(5_000_000_000), "SUI").unwrap();
    assert_eq!(small.transcript, "confirm sending 5 SUI");
    assert_eq!(small.stress_level, 20);
    assert!(small.amount_verified);
    let mid = analyze_audio_mock(&STANDARD.encode(vec![0u8; 1000]), Some(5_000_000_000), "SUI").unwrap();
    assert_eq!(mid.transcript, "yes confirm transfer of 10 SUI");
    assert!(!mid.amount_verified);
    let big = analyze_audio_mock(&STANDARD.encode(vec![0u8; 12_000]), None, "SUI").unwrap();
    assert_eq!(big.transcript, "I confirm sending 100 SUI to the specified address");
    assert_eq!(big.stress_level, 35);
    assert!(big.amount_verified);
}

#[test]
fn decision_priorities() {
    assert_eq!(decide(70, true), BioAuthResult::Duress);
    assert_eq!(decide(69, true), BioAuthResult::Approved);
    assert_eq!(decide(69, false), BioAuthResult::InvalidAmount);
    assert_eq!(decide(100, false), BioAuthResult::Duress);
}

#[test]
fn offline_verdict_is_deterministic() {
    let audio = STANDARD.encode(vec![7u8; 3000]);
    let first = offline_verdict(&audio, Some(10_000_000_000), "SUI");
    let second = offline_verdict(&audio, Some(10_000_000_000), "SUI");
    assert_eq!(first, second);
    assert_eq!(first, BioAuthResult::Approved);
    assert_eq!(offline_verdict(&audio, Some(1), "SUI"), BioAuthResult::InvalidAmount);
}

#[test]
fn undecodable_audio_gets_neutral_analysis() {
    let a = fallback_analysis("***", Some(5), "SUI");
    assert_eq!(a.stress_level, 30);
    assert!(a.transcript.is_empty());
    assert!(!a.amount_verified);
    assert_eq!(offline_verdict("***", Some(5), "SUI"), BioAuthResult::InvalidAmount);
    assert_eq!(offline_verdict("***", None, "SUI"), BioAuthResult::Approved);
}

#[test]
fn emotion_names_set_their_field() {
    let s = EmotionScores::zero().with_named("fear", 900_000).with_named("sadness", 10).with_named("joy", 5);
    assert_eq!(s.fear, 900_000);
    assert_eq!(s.sadness, 10);
    assert_eq!(s.anxiety, 0);
    assert_eq!(s.confusion, 0);
}
