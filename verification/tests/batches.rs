use pitch_stream::error::AnalyzerError;
use pitch_stream::estimator::{Estimate, EstimatorKind, PitchEstimator};
use pitch_stream::onset::classify;
use pitch_stream::pitch_detector::{
    make_params, Params, Pitch, PitchDetector, CLARITY_THRESHOLD_BITS, MAX_WINDOW_SIZE,
    POWER_THRESHOLD_BITS, SAMPLE_RATE,
};
use pitch_stream::window::{fill_chunk, UnprocessedRegion};

/// An estimator that answers from the window alone: it is confident unless the window begins
/// with a zero, and reports the first sample as the frequency and the last as the clarity.
struct Echo {
    kind: EstimatorKind,
    window: usize,
    padding: usize,
}

impl PitchEstimator for Echo {
    fn create(kind: EstimatorKind, window: usize, padding: usize) -> Self {
        Echo { kind, window, padding }
    }

    fn estimate(
        &mut self,
        window: &[u32],
        sample_rate: usize,
        power_threshold_bits: u32,
        clarity_threshold_bits: u32,
    ) -> Option<Estimate> {
        assert_eq!(window.len(), self.window);
        assert_eq!(self.padding, self.window / 2);
        assert_eq!(self.kind, EstimatorKind::McLeod);
        assert_eq!(sample_rate, 48000);
        assert_eq!(f32::from_bits(power_threshold_bits), 0.25);
        assert_eq!(f32::from_bits(clarity_threshold_bits), 0.6);
        if window[0] == 0 {
            None
        } else {
            Some(Estimate {
                frequency_bits: window[0],
                clarity_bits: window[window.len() - 1],
            })
        }
    }
}

fn echo(window: usize) -> PitchDetector<Echo> {
    PitchDetector::new(String::from("McLeod"), make_params(window)).unwrap()
}

/// The samples 1, 2, 3, ... so that a sample tells its own position.
fn ramp(from: u32, len: usize) -> Vec<u32> {
    (0..len as u32).map(|i| from + i).collect()
}

fn pitch(t: usize, first: u32, last: u32, onset: bool) -> Pitch {
    Pitch { t, frequency_bits: first, clarity_bits: last, onset }
}

#[test]
fn default_parameters() {
    assert_eq!(
        make_params(2048),
        Params {
            sample_rate: 48000,
            window: 2048,
            padding: 1024,
            power_threshold_bits: 0.25f32.to_bits(),
            clarity_threshold_bits: 0.6f32.to_bits(),
        }
    );
    assert_eq!(make_params(5).padding, 2);
    assert_eq!(SAMPLE_RATE, 48000);
    assert_eq!(f32::from_bits(POWER_THRESHOLD_BITS), 0.25);
    assert_eq!(f32::from_bits(CLARITY_THRESHOLD_BITS), 0.6);
    assert_eq!(MAX_WINDOW_SIZE, 8192);
}

#[test]
fn a_window_above_the_maximum_is_refused() {
    let made: Result<PitchDetector<Echo>, AnalyzerError> =
        PitchDetector::new(String::from("McLeod"), make_params(8193));
    assert_eq!(
        made.err(),
        Some(AnalyzerError::WindowTooLarge { window: 8193, maximum: 8192 })
    );
    let both_wrong: Result<PitchDetector<Echo>, AnalyzerError> =
        PitchDetector::new(String::from("nothing"), make_params(8193));
    assert_eq!(
        both_wrong.err(),
        Some(AnalyzerError::WindowTooLarge { window: 8193, maximum: 8192 })
    );
    let largest: Result<PitchDetector<Echo>, AnalyzerError> =
        PitchDetector::new(String::from("McLeod"), make_params(8192));
    assert!(largest.is_ok());
}

#[test]
fn estimators_are_chosen_by_exact_name() {
    assert_eq!(
        EstimatorKind::from_name(&String::from("Autocorrelation")),
        Some(EstimatorKind::Autocorrelation)
    );
    assert_eq!(
        EstimatorKind::from_name(&String::from("McLeod")),
        Some(EstimatorKind::McLeod)
    );
    assert_eq!(
        EstimatorKind::from_name(&String::from("Smoothed McLeod")),
        Some(EstimatorKind::SmoothedMcLeod)
    );
    for name in ["", "mcleod", "McLeod ", "Autocorrelation\n", "Smoothed", "SmoothedMcLeod", "YIN"] {
        assert_eq!(EstimatorKind::from_name(&String::from(name)), None);
        let made: Result<PitchDetector<Echo>, AnalyzerError> =
            PitchDetector::new(String::from(name), make_params(1024));
        assert_eq!(made.err(), Some(AnalyzerError::UnknownEstimatorKind));
    }
}

#[test]
fn a_new_detector_has_seen_nothing() {
    let detector = echo(1024);
    assert_eq!(detector.time_of_first_sample(), 0);
    assert_eq!(detector.time_of_next_unprocessed_sample(), 0);
    assert_eq!(detector.index_of_next_unprocessed_sample(), 0);
    assert_eq!(detector.num_audio_samples(), 0);
    assert!(detector.can_drain());
}

#[test]
fn pitches_before_any_samples_reports_not_enough_samples() {
    let mut detector = echo(1024);

    let result = detector.pitches();

    assert_eq!(result.code(), "not_enough_samples");
    assert_eq!(result.message(), "pitches() requires at least 1024 samples and there are currently 0. Ensure set_audio_samples() has been called once enough samples are available.");
    assert_eq!(result.pitches().len(), 0);
    assert_eq!(detector.time_of_next_unprocessed_sample(), 0);
}

#[test]
fn pitches_after_a_refused_view_still_reports_not_enough_samples() {
    let mut detector = echo(2048);
    assert_eq!(
        detector.set_audio_samples(77, ramp(1, 2047)),
        Err(AnalyzerError::InsufficientSamples { required: 2048, available: 2047 })
    );
    assert_eq!(detector.num_audio_samples(), 0);
    assert_eq!(detector.time_of_first_sample(), 0);
    assert_eq!(detector.time_of_next_unprocessed_sample(), 0);
    let result = detector.pitches();
    assert_eq!(result.code(), "not_enough_samples");
    assert_eq!(result.message(), "pitches() requires at least 2048 samples and there are currently 0. Ensure set_audio_samples() has been called once enough samples are available.");
}

#[test]
fn pitches_with_nothing_new_is_an_empty_success() {
    let mut detector = echo(8);
    detector.set_audio_samples(0, ramp(1, 9)).unwrap();
    let result = detector.pitches();
    assert_eq!(result.code(), "success");
    assert_eq!(result.message(), "");
    assert_eq!(result.pitches(), vec![]);
    assert_eq!(detector.time_of_next_unprocessed_sample(), 0);
}

#[test]
fn pitches_reports_each_window_once() {
    let mut detector = echo(8);
    detector.set_audio_samples(0, ramp(1, 14)).unwrap();
    let result = detector.pitches();
    assert_eq!(result.code(), "success");
    assert_eq!(result.message(), "");
    assert_eq!(
        result.pitches(),
        vec![pitch(0, 1, 8, true), pitch(2, 3, 10, false), pitch(4, 5, 12, false)]
    );
    let again = detector.pitches();
    assert_eq!(again.code(), "success");
    assert_eq!(again.pitches(), vec![]);
}

#[test]
fn windows_start_at_the_cursor_and_are_one_hop_apart() {
    let mut detector = echo(8);
    // 8 + 2 * 3 + 1 samples: three windows are due, at 0, 2 and 4; a fourth would fit at 6
    // but is left for the next batch.
    detector.set_audio_samples(0, ramp(1, 15)).unwrap();
    assert_eq!(
        detector.pitches_vec(),
        vec![pitch(0, 1, 8, true), pitch(2, 3, 10, false), pitch(4, 5, 12, false)]
    );
    assert_eq!(detector.time_of_next_unprocessed_sample(), 6);
    assert_eq!(detector.index_of_next_unprocessed_sample(), 6);
    assert_eq!(detector.pitches_vec(), vec![]);
    assert_eq!(detector.time_of_next_unprocessed_sample(), 6);
}

#[test]
fn fewer_samples_than_a_window_and_a_hop_give_no_window() {
    for len in 8..10 {
        let mut detector = echo(8);
        detector.set_audio_samples(0, ramp(1, len)).unwrap();
        assert_eq!(detector.pitches_vec(), vec![]);
        assert_eq!(detector.time_of_next_unprocessed_sample(), 0);
    }
    let mut detector = echo(8);
    detector.set_audio_samples(0, ramp(1, 10)).unwrap();
    assert_eq!(detector.pitches_vec(), vec![pitch(0, 1, 8, true)]);
    assert_eq!(detector.time_of_next_unprocessed_sample(), 2);
}

#[test]
fn a_later_view_moves_the_cursor_to_its_start() {
    let mut detector = echo(8);
    detector.set_audio_samples(100, ramp(1, 12)).unwrap();
    assert_eq!(detector.time_of_first_sample(), 100);
    assert_eq!(detector.time_of_next_unprocessed_sample(), 100);
    assert_eq!(
        detector.pitches_vec(),
        vec![pitch(100, 1, 8, true), pitch(102, 3, 10, false)]
    );
    assert_eq!(detector.time_of_next_unprocessed_sample(), 104);
    detector.set_audio_samples(200, ramp(51, 10)).unwrap();
    assert_eq!(detector.time_of_next_unprocessed_sample(), 200);
    assert_eq!(detector.pitches_vec(), vec![pitch(200, 51, 58, false)]);
}

#[test]
fn an_overlapping_view_does_not_move_the_cursor_back() {
    let mut detector = echo(8);
    detector.set_audio_samples(0, ramp(1, 12)).unwrap();
    assert_eq!(detector.pitches_vec().len(), 2);
    assert_eq!(detector.time_of_next_unprocessed_sample(), 4);

    // The same stream, two samples on: the view begins before the cursor.
    detector.set_audio_samples(2, ramp(3, 12)).unwrap();
    assert_eq!(detector.time_of_first_sample(), 2);
    assert_eq!(detector.time_of_next_unprocessed_sample(), 4);
    assert_eq!(detector.index_of_next_unprocessed_sample(), 2);
    // Ten samples are left from the cursor on: one window, which begins at the cursor, with
    // sample 5.
    assert_eq!(detector.pitches_vec(), vec![pitch(4, 5, 12, false)]);
    assert_eq!(detector.time_of_next_unprocessed_sample(), 6);

    // A view at the cursor itself keeps the cursor too.
    detector.set_audio_samples(6, ramp(7, 10)).unwrap();
    assert_eq!(detector.time_of_next_unprocessed_sample(), 6);
    assert_eq!(detector.pitches_vec(), vec![pitch(6, 7, 14, false)]);
}

#[test]
fn a_view_that_ends_before_the_cursor_gives_nothing() {
    let mut detector = echo(8);
    detector.set_audio_samples(0, ramp(1, 40)).unwrap();
    assert_eq!(detector.pitches_vec().len(), 16);
    assert_eq!(detector.time_of_next_unprocessed_sample(), 32);
    detector.set_audio_samples(0, ramp(1, 20)).unwrap();
    assert_eq!(detector.time_of_next_unprocessed_sample(), 32);
    assert!(detector.can_drain());
    assert_eq!(detector.pitches_vec(), vec![]);
    let result = detector.pitches();
    assert_eq!(result.code(), "success");
    assert_eq!(result.pitches(), vec![]);
    assert_eq!(detector.time_of_next_unprocessed_sample(), 32);
}

#[test]
fn onsets_follow_windows_without_a_pitch() {
    let mut detector = echo(4);
    // Windows begin at every sample; a window that begins with 0 holds no pitch.
    let samples = vec![5, 6, 0, 7, 0, 0, 8, 9, 1, 1, 1, 1];
    detector.set_audio_samples(0, samples).unwrap();
    assert_eq!(
        detector.pitches_vec(),
        vec![
            pitch(0, 5, 7, true),
            pitch(1, 6, 0, false),
            pitch(3, 7, 8, true),
            pitch(6, 8, 1, true),
            pitch(7, 9, 1, false),
        ]
    );
    assert_eq!(detector.time_of_next_unprocessed_sample(), 8);
}

#[test]
fn what_is_remembered_carries_over_to_the_next_batch() {
    let mut detector = echo(4);
    detector.set_audio_samples(0, vec![1, 2, 3, 4, 5]).unwrap();
    assert_eq!(detector.pitches_vec(), vec![pitch(0, 1, 4, true)]);
    // The last window held a pitch: the next batch begins with a continuation.
    detector.set_audio_samples(1, vec![2, 3, 4, 5, 0, 0]).unwrap();
    assert_eq!(
        detector.pitches_vec(),
        vec![pitch(1, 2, 5, false), pitch(2, 3, 0, false)]
    );
    // Now a window without a pitch ends the batch: the next pitch is an onset.
    detector.set_audio_samples(3, vec![0, 0, 0, 0, 9]).unwrap();
    assert_eq!(detector.pitches_vec(), vec![]);
    assert_eq!(detector.time_of_next_unprocessed_sample(), 4);
    detector.set_audio_samples(4, vec![6, 0, 0, 0, 9, 9]).unwrap();
    assert_eq!(detector.pitches_vec(), vec![pitch(4, 6, 0, true)]);
    assert_eq!(detector.pitches_vec(), vec![]);
}

#[test]
fn a_window_of_fewer_than_four_samples_cannot_advance() {
    let mut detector = echo(2);
    assert!(detector.can_drain());
    assert_eq!(detector.pitches().code(), "not_enough_samples");
    assert_eq!(
        detector.set_audio_samples(0, vec![1]),
        Err(AnalyzerError::InsufficientSamples { required: 2, available: 1 })
    );
    assert!(detector.can_drain());
    detector.set_audio_samples(0, vec![1, 2]).unwrap();
    assert!(!detector.can_drain());
    assert!(echo(4).can_drain());
}

#[test]
fn classifies_one_window() {
    let found = Estimate { frequency_bits: 440.0f32.to_bits(), clarity_bits: 0.9f32.to_bits() };
    let onset = classify(None, 512, Some(found));
    assert_eq!(
        onset,
        (
            Some(Pitch {
                t: 512,
                frequency_bits: 440.0f32.to_bits(),
                clarity_bits: 0.9f32.to_bits(),
                onset: true
            }),
            Some(440.0f32.to_bits())
        )
    );
    let continuation = classify(onset.1, 1536, Some(found));
    assert_eq!(continuation.0.unwrap().onset, false);
    assert_eq!(continuation.0.unwrap().t, 1536);
    assert_eq!(classify(continuation.1, 2560, None), (None, None));
    assert_eq!(classify(None, 2560, None), (None, None));
    assert_eq!(classify(None, 3584, Some(found)).0.unwrap().onset, true);
}

#[test]
fn fills_a_chunk_from_the_middle_of_a_signal() {
    let signal = [1, 2, 3, 4, 5, 6];
    let mut chunk = vec![9; 5];
    fill_chunk(&signal, 2, 3, &mut chunk);
    assert_eq!(chunk, vec![3, 4, 5, 0, 0]);
}

#[test]
fn fills_a_chunk_with_silence_past_the_end_of_the_signal() {
    let signal = [1, 2, 3, 4, 5, 6];
    let mut chunk = vec![9; 5];
    fill_chunk(&signal, 4, 4, &mut chunk);
    assert_eq!(chunk, vec![5, 6, 0, 0, 0]);
    fill_chunk(&signal, 6, 4, &mut chunk);
    assert_eq!(chunk, vec![0, 0, 0, 0, 0]);
    let mut chunk = vec![9; 5];
    fill_chunk(&signal, usize::MAX, 5, &mut chunk);
    assert_eq!(chunk, vec![0, 0, 0, 0, 0]);
    let mut chunk = vec![9; 3];
    fill_chunk(&signal, 0, 0, &mut chunk);
    assert_eq!(chunk, vec![0, 0, 0]);
    let mut chunk = vec![9; 6];
    fill_chunk(&signal, 0, 6, &mut chunk);
    assert_eq!(chunk, vec![1, 2, 3, 4, 5, 6]);
    let mut empty: Vec<u32> = vec![];
    fill_chunk(&signal, 0, 0, &mut empty);
    assert_eq!(empty, Vec::<u32>::new());
}

#[test]
fn the_region_ahead_of_the_cursor() {
    assert_eq!(
        UnprocessedRegion::of_view(0, 4800, 0),
        Some(UnprocessedRegion { start: 0, len: 4800 })
    );
    assert_eq!(
        UnprocessedRegion::of_view(100, 4800, 2660),
        Some(UnprocessedRegion { start: 2660, len: 2240 })
    );
    assert_eq!(
        UnprocessedRegion::of_view(100, 50, 150),
        Some(UnprocessedRegion { start: 150, len: 0 })
    );
    assert_eq!(UnprocessedRegion::of_view(100, 50, 151), None);

    let mut detector = echo(8);
    assert_eq!(
        detector.unprocessed_region(),
        Some(UnprocessedRegion { start: 0, len: 0 })
    );
    detector.set_audio_samples(10, ramp(1, 40)).unwrap();
    assert_eq!(
        detector.unprocessed_region(),
        Some(UnprocessedRegion { start: 10, len: 40 })
    );
    detector.pitches_vec();
    assert_eq!(
        detector.unprocessed_region(),
        Some(UnprocessedRegion { start: 42, len: 8 })
    );
    detector.set_audio_samples(10, ramp(1, 20)).unwrap();
    assert_eq!(detector.unprocessed_region(), None);
}

#[test]
fn the_number_of_windows_due() {
    let region = |len| UnprocessedRegion { start: 0, len };
    // A tenth of a second at 48 kHz: (4800 - 2048) / 512 windows.
    assert_eq!(region(4800).num_windows(2048, 512), 5);
    assert_eq!(region(2047).num_windows(2048, 512), 0);
    assert_eq!(region(2048).num_windows(2048, 512), 0);
    assert_eq!(region(2559).num_windows(2048, 512), 0);
    assert_eq!(region(2560).num_windows(2048, 512), 1);
    assert_eq!(region(3071).num_windows(2048, 512), 1);
    assert_eq!(region(3072).num_windows(2048, 512), 2);
    assert_eq!(region(16384).num_windows(8192, 2048), 4);
    assert_eq!(region(0).num_windows(0, 1), 0);
    assert_eq!(region(5).num_windows(0, 1), 5);
    assert_eq!(region(1).num_windows(2, 0), 0);
}
