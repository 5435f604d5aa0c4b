use pitch_stream::pitch_detector::{Pitch, PitchesResult};
use pitch_stream::text::decimal_text;

#[test]
fn writes_numbers_in_decimal() {
    assert_eq!(decimal_text(0), "0");
    assert_eq!(decimal_text(7), "7");
    assert_eq!(decimal_text(9), "9");
    assert_eq!(decimal_text(10), "10");
    assert_eq!(decimal_text(1024), "1024");
    assert_eq!(decimal_text(8192), "8192");
    assert_eq!(decimal_text(1234567890), "1234567890");
    assert_eq!(decimal_text(usize::MAX), usize::MAX.to_string());
    for n in 0..2000usize {
        assert_eq!(decimal_text(n), n.to_string());
    }
}

#[test]
fn a_result_from_an_error_carries_no_pitches() {
    let result = PitchesResult::from_error(String::from("some_code"), String::from("Some text."));
    assert_eq!(result.code(), "some_code");
    assert_eq!(result.message(), "Some text.");
    assert_eq!(result.pitches(), vec![]);
}

#[test]
fn a_result_from_pitches_is_a_success() {
    let pitches = vec![
        Pitch { t: 512, frequency_bits: 1, clarity_bits: 2, onset: true },
        Pitch { t: 1536, frequency_bits: 3, clarity_bits: 4, onset: false },
    ];
    let result = PitchesResult::from_vec(pitches.clone());
    assert_eq!(result.code(), "success");
    assert_eq!(result.message(), "");
    assert_eq!(result.pitches(), pitches);
    assert_eq!(PitchesResult::from_vec(vec![]).pitches(), vec![]);
}
