use audio_bridge::sample::{from_normalized, to_normalized, Sample, SampleKind, INT16_STEP, UNIT_STEPS};

#[test]
fn int16_conversion_exact_values() {
    assert_eq!(to_normalized(0, SampleKind::Int16).steps, 0);
    assert_eq!(to_normalized(1, SampleKind::Int16).steps, INT16_STEP);
    assert_eq!(to_normalized(32767, SampleKind::Int16).steps, UNIT_STEPS);
    assert_eq!(to_normalized(-32767, SampleKind::Int16).steps, -UNIT_STEPS);
    assert_eq!(to_normalized(16384, SampleKind::Int16).steps, 16384 * 512);
}

#[test]
fn int16_round_trip_across_the_range() {
    for raw in [-32768, -32767, -12345, -1, 0, 1, 777, 12345, 32766, 32767] {
        let normalized = to_normalized(raw, SampleKind::Int16);
        assert_eq!(from_normalized(normalized, SampleKind::Int16), raw);
    }
}

#[test]
fn float32_passthrough_is_identity() {
    for x in [-1.0f32, -0.5, -0.1, 0.0, 0.1, 0.25, 0.999, 1.0] {
        let steps = (x * UNIT_STEPS as f32).round() as i32;
        let normalized = to_normalized(steps, SampleKind::Float32);
        assert_eq!(normalized.steps, steps);
        assert_eq!(from_normalized(normalized, SampleKind::Float32), steps);
    }
    // Values beyond full scale also pass through untouched.
    let loud = 3 * UNIT_STEPS;
    assert_eq!(from_normalized(to_normalized(loud, SampleKind::Float32), SampleKind::Float32), loud);
}

#[test]
fn from_normalized_truncates_toward_zero() {
    // 1000 steps is just under two 16-bit units; truncation keeps one.
    assert_eq!(from_normalized(Sample { steps: 1000 }, SampleKind::Int16), 1);
    // Toward zero, not toward negative infinity.
    assert_eq!(from_normalized(Sample { steps: -1000 }, SampleKind::Int16), -1);
    assert_eq!(from_normalized(Sample { steps: 511 }, SampleKind::Int16), 0);
    assert_eq!(from_normalized(Sample { steps: -511 }, SampleKind::Int16), 0);
}

#[test]
fn from_normalized_clips_at_int16_width() {
    // Past full scale the conversion saturates at the 16-bit extremes.
    assert_eq!(from_normalized(Sample { steps: 2 * UNIT_STEPS }, SampleKind::Int16), 32767);
    assert_eq!(from_normalized(Sample { steps: i32::MAX }, SampleKind::Int16), 32767);
    assert_eq!(from_normalized(Sample { steps: -2 * UNIT_STEPS }, SampleKind::Int16), -32768);
    assert_eq!(from_normalized(Sample { steps: i32::MIN }, SampleKind::Int16), -32768);
    // Full scale itself is exact.
    assert_eq!(from_normalized(Sample { steps: UNIT_STEPS }, SampleKind::Int16), 32767);
    assert_eq!(from_normalized(Sample { steps: -UNIT_STEPS }, SampleKind::Int16), -32767);
}

#[test]
fn silence_is_zero() {
    let z = Sample::silence();
    assert_eq!(z.steps, 0);
    assert_eq!(from_normalized(z, SampleKind::Int16), 0);
    assert_eq!(from_normalized(z, SampleKind::Float32), 0);
}
