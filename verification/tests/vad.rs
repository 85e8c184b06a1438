use voxtype::vad::energy::EnergyVad;
use voxtype::vad::{create_vad, ThresholdMode, VadConfig, VadError, VadResult,
    VoiceActivityDetector};

/// An enabled detector configuration with the library defaults.
fn enabled_config() -> VadConfig {
    let mut config = VadConfig::default();
    config.enabled = true;
    config
}

fn detector(config: VadConfig) -> EnergyVad {
    EnergyVad::new(&config).expect("configuration should be valid")
}

/// Quantizes normalized f32 samples to Q15, as the capture layer does.
fn to_q15(samples: &[f32]) -> Vec<i16> {
    samples
        .iter()
        .map(|&x| {
            let x = if x.is_finite() { x } else { 0.0 };
            (x.clamp(-1.0, 1.0) * 32767.0).round() as i16
        })
        .collect()
}

fn sine(freq_hz: f32, amplitude: f32, n: usize) -> Vec<i16> {
    let samples: Vec<f32> = (0..n)
        .map(|i| amplitude * (2.0 * std::f32::consts::PI * freq_hz * i as f32 / 16000.0).sin())
        .collect();
    to_q15(&samples)
}

#[test]
fn test_vad_result_defaults() {
    let result = VadResult {
        has_speech: false,
        speech_samples: 0,
        total_samples: 0,
        rms_energy_q15: 0,
    };
    assert!(!result.has_speech);
    assert_eq!(result.speech_samples, 0);
    assert_eq!(result.rms_energy_q15, 0);
}

#[test]
fn test_create_vad_disabled() {
    let config = VadConfig::default();
    // VAD is disabled by default
    assert!(!config.enabled);
    let vad = create_vad(&config).expect("default configuration is valid");
    assert!(vad.is_none());
}

#[test]
fn test_create_vad_enabled() {
    let config = enabled_config();
    let vad = create_vad(&config).expect("default configuration is valid");
    assert!(vad.is_some());
}

#[test]
fn test_create_vad_invalid_config() {
    let mut config = enabled_config();
    config.min_speech_ratio_permille = 0;
    assert_eq!(create_vad(&config), Err(VadError::InvalidConfig));
    let mut config = enabled_config();
    config.frame_duration_ms = 0;
    assert_eq!(create_vad(&config), Err(VadError::InvalidConfig));
    // An invalid configuration is ignored while detection is disabled.
    let mut config = VadConfig::default();
    config.frame_duration_ms = 0;
    assert_eq!(create_vad(&config), Ok(None));
}

#[test]
fn test_all_zero_input_is_silence() {
    let vad = detector(enabled_config());
    for n in [320, 1000, 16000] {
        let samples = vec![0i16; n];
        let result = vad.detect(&samples).unwrap();
        assert!(!result.has_speech);
        assert_eq!(result.speech_samples, 0);
        assert_eq!(result.total_samples, n);
        assert_eq!(result.rms_energy_q15, 0);
    }
}

#[test]
fn test_full_second_sine_is_speech() {
    let vad = detector(enabled_config());
    let samples = sine(440.0, 0.5, 16000);
    let result = vad.detect(&samples).unwrap();
    assert!(result.has_speech);
    // speech_ratio > 0.9
    assert!(result.speech_samples as f32 / result.total_samples as f32 > 0.9);
}

#[test]
fn test_speech_ratio_always_in_unit_interval() {
    let vad = detector(enabled_config());
    let buffers: Vec<Vec<i16>> = vec![
        vec![0; 5],
        sine(440.0, 1.0, 123),
        sine(90.0, 0.02, 4321),
        to_q15(&[f32::NAN, f32::INFINITY, 0.7, -0.7, f32::NEG_INFINITY]),
        vec![i16::MIN; 16000],
    ];
    for samples in buffers {
        let result = vad.detect(&samples).unwrap();
        assert!(result.speech_samples <= result.total_samples);
        let ratio = result.speech_samples as f32 / result.total_samples as f32;
        assert!((0.0..=1.0).contains(&ratio));
    }
}

#[test]
fn test_speech_duration_matches_ratio_times_total() {
    let vad = detector(enabled_config());
    let mut samples = sine(300.0, 0.6, 9000);
    samples.extend(vec![0i16; 7000]);
    let result = vad.detect(&samples).unwrap();
    let total_secs = result.total_samples as f32 / 16000.0;
    let duration_secs = result.speech_samples as f32 / 16000.0;
    let ratio = result.speech_samples as f32 / result.total_samples as f32;
    assert!((duration_secs - ratio * total_secs).abs() <= 1e-6 * total_secs.max(1.0));
}

#[test]
fn test_raising_min_ratio_never_adds_speech() {
    // Half a second of tone in two seconds of audio: the lenient ratio
    // accepts it, the strict one must not flip silence into speech.
    let mut samples = sine(440.0, 0.5, 8000);
    samples.extend(vec![0i16; 24000]);
    let mut lenient_cfg = enabled_config();
    lenient_cfg.min_speech_ratio_permille = 100;
    let mut strict_cfg = enabled_config();
    strict_cfg.min_speech_ratio_permille = 900;
    // Keep the duration gate out of the way so the ratio gate decides.
    lenient_cfg.min_speech_duration_ms = 10000;
    strict_cfg.min_speech_duration_ms = 10000;
    let lenient = detector(lenient_cfg).detect(&samples).unwrap();
    let strict = detector(strict_cfg).detect(&samples).unwrap();
    assert!(lenient.has_speech);
    assert!(!strict.has_speech);
    assert!(!strict.has_speech || lenient.has_speech);
    assert_eq!(lenient.speech_samples, strict.speech_samples);
}

#[test]
fn test_brief_dip_does_not_split_speech() {
    // 10 loud frames, 1 quiet frame, 10 loud frames; the hangover (100 ms
    // = 5 frames) bridges the dip, so the whole span counts as speech.
    let frame = 320;
    let mut samples = vec![8000i16; 10 * frame];
    samples.extend(vec![0i16; frame]);
    samples.extend(vec![8000i16; 10 * frame]);
    let vad = detector(enabled_config());
    let result = vad.detect(&samples).unwrap();
    assert!(result.has_speech);
    assert_eq!(result.speech_samples, result.total_samples);
}

#[test]
fn test_detect_is_deterministic() {
    let vad = detector(enabled_config());
    let samples = sine(250.0, 0.4, 12345);
    let first = vad.detect(&samples).unwrap();
    let second = vad.detect(&samples).unwrap();
    assert_eq!(first, second);
}

#[test]
fn test_empty_input_is_rejected() {
    let vad = detector(enabled_config());
    let samples: Vec<i16> = Vec::new();
    assert_eq!(vad.detect(&samples), Err(VadError::EmptyInput));
}

#[test]
fn test_half_loud_half_silent_second() {
    // 8000 samples of loud tone then 8000 of silence: the ratio is one
    // half plus the hangover (5 frames of 20 ms), exactly.
    let mut samples = vec![16000i16; 8000];
    samples.extend(vec![0i16; 8000]);
    let vad = detector(enabled_config());
    let result = vad.detect(&samples).unwrap();
    assert!(result.has_speech);
    let loud_frames = 25;
    let hangover_frames = 5;
    assert_eq!(result.speech_samples, (loud_frames + hangover_frames) * 320);
    let ratio = result.speech_samples as f32 / result.total_samples as f32;
    let hangover_secs = 0.1;
    assert!((ratio - 0.5).abs() <= hangover_secs + 1e-6);
}

#[test]
fn test_fixed_threshold_mode() {
    let mut config = enabled_config();
    config.threshold_mode = ThresholdMode::Fixed;
    config.fixed_threshold_q15 = 1000;
    let vad = detector(config);
    // A buffer entirely below the fixed threshold is silence.
    let quiet = vec![500i16; 3200];
    let result = vad.detect(&quiet).unwrap();
    assert!(!result.has_speech);
    assert_eq!(result.speech_samples, 0);
    assert_eq!(result.rms_energy_q15, 500);
    // A buffer entirely above it is all speech.
    let loud = vec![2000i16; 3200];
    let result = vad.detect(&loud).unwrap();
    assert!(result.has_speech);
    assert_eq!(result.speech_samples, 3200);
    assert_eq!(result.rms_energy_q15, 2000);
}

#[test]
fn test_buffer_shorter_than_one_frame() {
    // A buffer shorter than one frame still gets a decision from its one
    // short frame, normalized by its actual length.
    let vad = detector(enabled_config());
    let samples = vec![16000i16; 100];
    let result = vad.detect(&samples).unwrap();
    assert!(result.has_speech);
    assert_eq!(result.speech_samples, 100);
    assert_eq!(result.total_samples, 100);
    assert_eq!(result.rms_energy_q15, 16000);
}

#[test]
fn test_uniformly_loud_buffer_is_speech() {
    // The adaptive baseline equals the loud energy itself, but the
    // threshold cap keeps full-scale speech detectable.
    let vad = detector(enabled_config());
    let samples = sine(440.0, 0.9, 16000);
    let result = vad.detect(&samples).unwrap();
    assert!(result.has_speech);
    assert_eq!(result.speech_samples, result.total_samples);
}

#[test]
fn test_rms_energy_of_constant_buffer() {
    let vad = detector(enabled_config());
    let samples = vec![12345i16; 4800];
    let result = vad.detect(&samples).unwrap();
    assert_eq!(result.rms_energy_q15, 12345);
    let samples = vec![-12345i16; 4800];
    let result = vad.detect(&samples).unwrap();
    assert_eq!(result.rms_energy_q15, 12345);
}
