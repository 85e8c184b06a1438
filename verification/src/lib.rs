//! Voice activity detection for a speech-to-text pipeline, together with
//! the pure decision logic behind transcription-backend selection.
//!
//! The detector classifies a buffer of audio samples as speech or silence
//! before the buffer is handed to a transcription engine. Samples are
//! Q15 fixed-point amplitudes (`i16`, full scale = 32768); all energy and
//! threshold arithmetic is exact integer arithmetic, so every result is a
//! deterministic function of the input buffer and the configuration.

pub mod parakeet;
pub mod vad;
