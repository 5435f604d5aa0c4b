//! Streaming pitch tracking over a bounded buffer of audio samples.
//!
//! Audio arrives in small chunks of equal size.  An
//! [`audio_samples_processor::AudioSamplesProcessor`] keeps the most recent chunks in a ring
//! and knows the absolute time, counted in samples, of everything it still holds.  A
//! [`pitch_detector::PitchDetector`] is handed a view of that buffer, cuts it into overlapping
//! windows, asks a pitch estimator about each window exactly once, and reports the confident
//! estimates as pitches, each marked as the onset of a note or as its continuation.
//!
//! A sample is carried as the bit pattern of an IEEE 754 single precision number, in a `u32`:
//! the crate moves samples and never computes with them.  The estimators, which do compute
//! with them, are supplied by the host through [`estimator::PitchEstimator`].
pub mod audio_samples_processor;
pub mod chunk_queue;
pub mod error;
pub mod estimator;
pub mod onset;
pub mod pitch_detector;
pub mod test_utils;
pub mod text;
pub mod window;
