use jellypilot_iced::scroll::captured_offset;

fn capture(offset: f32, observed: f32, translation: f32) -> f32 {
    f32::from_bits(captured_offset(offset.to_bits(), observed.to_bits(), translation.to_bits()))
}

#[test]
fn only_an_actual_change_replaces_a_remembered_offset() {
    // A clamped translation that did not change keeps the saved offset.
    assert_eq!(capture(500.0, 120.0, 120.0), 500.0);
    assert_eq!(capture(500.0, 0.0, -0.0), 500.0);
    // Input moved the scrollable: the new translation is remembered.
    assert_eq!(capture(500.0, 120.0, 80.0), 80.0);
    assert_eq!(capture(500.0, 120.0, 0.0), 0.0);
    // A NaN translation never equals what was observed.
    assert!(capture(500.0, f32::NAN, f32::NAN).is_nan());
}
