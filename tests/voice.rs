use ram_voice::scorer::{calculate_stress, AcousticFeatures, StressReason};
use base64::{engine::general_purpose::STANDARD, Engine as _};
use ram_voice::voice::{analyze_voice_stress, analyze_voice_stress_base64, extract_features};
use ram_voice::signal::calculate_high_freq_ratio;
use ram_voice::wav::parse_wav;

// Helper: generate a pure sine wave
fn generate_sine_wave(freq: f64, sample_rate: u32, duration: f64) -> Vec<f32> {
    let num_samples = (sample_rate as f64 * duration) as usize;
    (0..num_samples)
        .map(|i| {
            let t = i as f64 / sample_rate as f64;
            (2.0 * std::f64::consts::PI * freq * t).sin() as f32 * 0.5
        })
        .collect()
}

// Helper: generate a trembling voice (frequency-modulated sine)
fn generate_trembling_voice(
    base_freq: f64,
    sample_rate: u32,
    duration: f64,
    tremor_rate: f64,
    tremor_depth: f64,
) -> Vec<f32> {
    let num_samples = (sample_rate as f64 * duration) as usize;
    let mut phase = 0.0;
    (0..num_samples)
        .map(|i| {
            let t = i as f64 / sample_rate as f64;
            let freq = base_freq + tremor_depth * (2.0 * std::f64::consts::PI * tremor_rate * t).sin();
            phase += 2.0 * std::f64::consts::PI * freq / sample_rate as f64;
            let amp = 0.5 + 0.2 * (2.0 * std::f64::consts::PI * tremor_rate * 0.7 * t).sin();
            (phase.sin() * amp) as f32
        })
        .collect()
}

fn to_pcm(samples: &[f32]) -> Vec<i16> {
    samples.iter().map(|s| (s.max(-1.0).min(1.0) * 32767.0) as i16).collect()
}

// Helper: create WAV file from samples
fn create_test_wav(sample_rate: u32, samples: &[f32]) -> Vec<u8> {
    let data_size = samples.len() * 2;
    let file_size = 36 + data_size;
    let mut wav = Vec::with_capacity(44 + data_size);
    wav.extend_from_slice(b"RIFF");
    wav.extend_from_slice(&(file_size as u32).to_le_bytes());
    wav.extend_from_slice(b"WAVE");
    wav.extend_from_slice(b"fmt ");
    wav.extend_from_slice(&16u32.to_le_bytes());
    wav.extend_from_slice(&1u16.to_le_bytes());
    wav.extend_from_slice(&1u16.to_le_bytes());
    wav.extend_from_slice(&sample_rate.to_le_bytes());
    wav.extend_from_slice(&(sample_rate * 2).to_le_bytes());
    wav.extend_from_slice(&2u16.to_le_bytes());
    wav.extend_from_slice(&16u16.to_le_bytes());
    wav.extend_from_slice(b"data");
    wav.extend_from_slice(&(data_size as u32).to_le_bytes());
    for v in to_pcm(samples) {
        wav.extend_from_slice(&v.to_le_bytes());
    }
    wav
}

#[test]
fn test_parse_wav() {
    let wav = create_test_wav(16000, &generate_sine_wave(440.0, 16000, 0.5));
    let (samples, sr) = parse_wav(&wav).expect("Should parse WAV");
    assert_eq!(sr, 16000);
    assert!(!samples.is_empty());
}

#[test]
fn test_calm_voice() {
    let steady_sine = generate_sine_wave(150.0, 16000, 1.0);
    let wav = create_test_wav(16000, &steady_sine);
    let analysis = analyze_voice_stress(&wav);
    assert!(analysis.stress_level < 50, "Steady tone should be low stress, got {}", analysis.stress_level);
}

#[test]
fn test_trembling_voice() {
    let trembling = generate_trembling_voice(150.0, 16000, 1.0, 6.0, 30.0);
    let wav = create_test_wav(16000, &trembling);
    let analysis = analyze_voice_stress(&wav);
    assert!(analysis.stress_level > 30, "Trembling voice should show stress, got {}", analysis.stress_level);
}

#[test]
fn trembling_voice_scores_above_steady_tone() {
    let calm = analyze_voice_stress(&create_test_wav(16000, &generate_sine_wave(150.0, 16000, 1.0)));
    let trembling = analyze_voice_stress(&create_test_wav(16000, &generate_trembling_voice(150.0, 16000, 1.0, 6.0, 30.0)));
    assert!(trembling.stress_level > calm.stress_level);
}

#[test]
fn test_stress_features_extraction() {
    let samples = to_pcm(&generate_sine_wave(200.0, 16000, 0.5));
    let features = extract_features(&samples, 16000);
    // thousandths of a hertz
    assert!(features.estimated_f0 > 150_000 && features.estimated_f0 < 250_000,
        "F0 should be ~200Hz, got {}", features.estimated_f0);
}

#[test]
fn steady_tone_features() {
    let samples = to_pcm(&generate_sine_wave(150.0, 16000, 1.0));
    let f = extract_features(&samples, 16000);
    // a 0.5 amplitude sine has an RMS of about 0.354
    assert!(f.rms_energy > 350_000 && f.rms_energy < 358_000, "rms {}", f.rms_energy);
    // 150 Hz crosses zero about 300 times a second
    assert!(f.zero_crossing_rate > 290_000 && f.zero_crossing_rate < 310_000, "zcr {}", f.zero_crossing_rate);
    assert!(f.pitch_jitter < 30_000, "jitter {}", f.pitch_jitter);
    assert!(f.energy_variance < 100_000, "energy {}", f.energy_variance);
}

#[test]
fn silence_and_empty_input() {
    let f = extract_features(&vec![0i16; 16000], 16000);
    assert_eq!(f.estimated_f0, 0);
    assert_eq!(f.pitch_jitter, 0);
    assert_eq!(f.energy_variance, 0);
    assert_eq!(f.high_freq_ratio, 0);
    assert_eq!(f.rms_energy, 0);
    assert_eq!(extract_features(&vec![], 16000), AcousticFeatures::neutral());
}

#[test]
fn unreadable_wav_is_neutral() {
    let a = analyze_voice_stress(&b"RIFF....WAVEfmt ".to_vec());
    assert_eq!(a.stress_level, 30);
    assert_eq!(a.reasons, vec![StressReason::Unparseable]);
    assert_eq!(a.features, AcousticFeatures::neutral());
    let mut eight_bit = create_test_wav(16000, &generate_sine_wave(150.0, 16000, 0.1));
    eight_bit[34] = 8;
    assert!(parse_wav(&eight_bit).is_none());
    let mut no_channels = create_test_wav(16000, &generate_sine_wave(150.0, 16000, 0.1));
    no_channels[22] = 0;
    assert!(parse_wav(&no_channels).is_none());
}

#[test]
fn stereo_reads_first_channel_only() {
    let mut wav = create_test_wav(8000, &[0.0; 4]);
    wav[22] = 2;
    // two frames of two channels: left 1, right 2; left 3, right 4
    wav.truncate(44);
    for v in [1i16, 2, 3, 4] {
        wav.extend_from_slice(&v.to_le_bytes());
    }
    let (samples, sr) = parse_wav(&wav).unwrap();
    assert_eq!(sr, 8000);
    assert_eq!(samples, vec![1, 3]);
}

#[test]
fn scorer_bands_and_clamp() {
    let calm = AcousticFeatures::neutral();
    let (level, reasons) = calculate_stress(&calm);
    assert_eq!(level, 10);
    assert_eq!(reasons, vec![StressReason::Calm]);

    let max = AcousticFeatures {
        pitch_jitter: 80_001,
        energy_variance: 800_001,
        zero_crossing_rate: 0,
        high_freq_ratio: 550_001,
        rms_energy: 0,
        estimated_f0: 300_001,
    };
    let (level, reasons) = calculate_stress(&max);
    assert_eq!(level, 100);
    assert_eq!(reasons.len(), 4);

    let edges = AcousticFeatures {
        pitch_jitter: 80_000,
        energy_variance: 350_001,
        zero_crossing_rate: 0,
        high_freq_ratio: 300_000,
        rms_energy: 0,
        estimated_f0: 200_001,
    };
    let (level, reasons) = calculate_stress(&edges);
    assert_eq!(level, 20 + 8 + 0 + 5 + 10);
    assert_eq!(reasons, vec![StressReason::ModerateInstability, StressReason::SlightVolumeFluctuation, StressReason::RaisedPitch]);
    assert_eq!(StressReason::Calm.message(), "Voice sounds calm");
}

#[test]
fn base64_entry_point() {
    let wav = create_test_wav(16000, &generate_sine_wave(150.0, 16000, 1.0));
    let direct = analyze_voice_stress(&wav);
    let via = analyze_voice_stress_base64(&STANDARD.encode(&wav));
    assert_eq!(via.stress_level, direct.stress_level);
    assert_eq!(via.features, direct.features);
    let bad = analyze_voice_stress_base64("not base64 at all!");
    assert_eq!(bad.stress_level, 30);
    assert_eq!(bad.reasons, vec![StressReason::Unparseable]);
}

#[test]
fn high_freq_ratio_without_sample_rate_passes_every_change() {
    let mut s = vec![0i16; 512];
    s[100] = 1000;
    assert_eq!(calculate_high_freq_ratio(&s, 0), 1_000_000);
    assert_eq!(calculate_high_freq_ratio(&vec![5i16; 600], 0), 0);
    assert_eq!(calculate_high_freq_ratio(&vec![0i16; 511], 0), 0);
}
