//! Voice activity detection: configuration, result and error types, the
//! detector capability, and the factory that builds a detector.
//!
//! Audio is handed over as Q15 fixed-point samples: an `i16` value `v`
//! stands for the amplitude `v / 32768`, so full scale is 32768 and the
//! nominal range [-1.0, 1.0] maps onto the whole `i16` range. Energies and
//! thresholds are Q15 magnitudes on the same scale (0 = silence, 32768 =
//! full scale). Durations are counted in samples at 16 kHz (16 samples per
//! millisecond).

pub mod energy;
pub mod laws;

use vstd::prelude::*;

verus! {

/// How the energy threshold that separates speech from silence is chosen.
#[derive(Debug, Clone, Copy, PartialEq, Eq, Structural)]
pub enum ThresholdMode {
    /// Use `fixed_threshold_q15` as the threshold, independent of the data.
    Fixed,
    /// Derive the threshold from a low percentile of the buffer's own
    /// per-frame energies, scaled by `adaptive_multiplier_permille`.
    Adaptive,
}

/// Configuration snapshot for one detector.
///
/// Ratios and multipliers are carried in permille (`650` = 0.65) so that
/// every decision is exact integer arithmetic.
#[derive(Debug, Clone, Copy, PartialEq, Eq, Structural)]
pub struct VadConfig {
    /// Whether voice activity detection is enabled at all.
    pub enabled: bool,
    /// Length of one analysis frame in milliseconds.
    pub frame_duration_ms: u32,
    /// Minimum fraction of the buffer classified as speech, in permille,
    /// for the buffer to count as containing speech.
    pub min_speech_ratio_permille: u32,
    /// Minimum absolute amount of speech, in milliseconds, for the buffer
    /// to count as containing speech.
    pub min_speech_duration_ms: u32,
    /// How the energy threshold is chosen.
    pub threshold_mode: ThresholdMode,
    /// Threshold used in `Fixed` mode, as a Q15 energy.
    pub fixed_threshold_q15: u32,
    /// Multiplier applied to the noise-floor baseline in `Adaptive` mode,
    /// in permille (`2000` = 2.0 times the baseline).
    pub adaptive_multiplier_permille: u32,
    /// How long the classifier stays in speech after the energy drops
    /// below the threshold, in milliseconds.
    pub hangover_ms: u32,
}

impl VadConfig {
    /// A configuration the factory accepts: the frame is between one
    /// millisecond and one second, both speech minima are positive (a zero
    /// minimum would classify every buffer as speech), the ratio is a
    /// valid fraction, the fixed threshold does not exceed full scale, and
    /// the adaptive multiplier is between 1 and 100.
    pub open spec fn valid(self) -> bool {
        &&& 1 <= self.frame_duration_ms <= 1000
        &&& 1 <= self.min_speech_ratio_permille <= 1000
        &&& 1 <= self.min_speech_duration_ms
        &&& self.fixed_threshold_q15 <= 32768
        &&& 1000 <= self.adaptive_multiplier_permille <= 100000
    }
}

impl Default for VadConfig {
    /// Detection is disabled by default; the remaining fields hold the
    /// conventional defaults: 20 ms frames, 10% minimum speech ratio,
    /// 250 ms minimum speech duration, adaptive threshold at twice the
    /// noise floor, 100 ms hangover.
    fn default() -> (r: VadConfig)
        ensures
            r == (VadConfig {
                enabled: false,
                frame_duration_ms: 20u32,
                min_speech_ratio_permille: 100u32,
                min_speech_duration_ms: 250u32,
                threshold_mode: ThresholdMode::Adaptive,
                fixed_threshold_q15: 655u32,
                adaptive_multiplier_permille: 2000u32,
                hangover_ms: 100u32,
            }),
            r.valid(),
            !r.enabled,
    {
        VadConfig {
            enabled: false,
            frame_duration_ms: 20,
            min_speech_ratio_permille: 100,
            min_speech_duration_ms: 250,
            threshold_mode: ThresholdMode::Adaptive,
            fixed_threshold_q15: 655,
            adaptive_multiplier_permille: 2000,
            hangover_ms: 100,
        }
    }
}

/// Result of voice activity detection.
///
/// Durations are sample counts at 16 kHz; the speech ratio of the buffer
/// is `speech_samples / total_samples`.
#[derive(Debug, Clone, Copy, PartialEq, Eq, Structural)]
pub struct VadResult {
    /// Whether speech was detected in the audio.
    pub has_speech: bool,
    /// Number of samples that lie in frames classified as speech.
    pub speech_samples: usize,
    /// Number of samples in the buffer.
    pub total_samples: usize,
    /// RMS energy of the whole buffer, as a Q15 magnitude.
    pub rms_energy_q15: u64,
}

/// Why detection failed.
#[derive(Debug, Clone, Copy, PartialEq, Eq, Structural)]
pub enum VadError {
    /// The sample buffer was empty; ratio and duration would be undefined.
    EmptyInput,
    /// A configuration value was outside its valid range.
    InvalidConfig,
}

/// The detector capability: one operation that turns a buffer of Q15
/// samples into a speech decision with supporting metrics. Alternative
/// detectors implement the same operation, each saying through
/// `spec_detect` what it computes.
pub trait VoiceActivityDetector: Sized {
    /// When the detector is usable: established by the factory.
    spec fn wf(&self) -> bool;

    /// The result this detector owes for a given buffer.
    spec fn spec_detect(&self, samples: Seq<i16>) -> Result<VadResult, VadError>;

    /// Detects speech in a buffer of 16 kHz mono Q15 samples. Fails
    /// exactly on an empty buffer, and never reports more speech than
    /// the buffer holds.
    fn detect(&self, samples: &[i16]) -> (r: Result<VadResult, VadError>)
        requires
            self.wf(),
        ensures
            r == self.spec_detect(samples@),
            samples@.len() == 0 <==> r == Err::<VadResult, VadError>(VadError::EmptyInput),
            r matches Ok(v) ==> v.total_samples == samples@.len() && v.speech_samples
                <= v.total_samples,
    ;
}

/// Builds the detector the configuration calls for: no detector at all
/// when detection is disabled (callers then fail open and assume
/// speech), the energy-based detector otherwise, after validating the
/// configuration once.
pub fn create_vad(config: &VadConfig) -> (r: Result<Option<energy::EnergyVad>, VadError>)
    ensures
        !config.enabled ==> r == Ok::<Option<energy::EnergyVad>, VadError>(None),
        config.enabled && !config.valid() ==> r == Err::<Option<energy::EnergyVad>, VadError>(
            VadError::InvalidConfig,
        ),
        config.enabled && config.valid() ==> (r matches Ok(o) && o matches Some(v) && v.config
            == *config && v.wf()),
{
    if !config.enabled {
        return Ok(None);
    }
    match energy::EnergyVad::new(config) {
        Ok(v) => Ok(Some(v)),
        Err(e) => Err(e),
    }
}

} // verus!
