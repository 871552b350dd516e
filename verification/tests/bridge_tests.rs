use audio_bridge::bridge::{validate_config, Bridge, BridgeState, ConfigError, StreamFormat};
use audio_bridge::sample::SampleKind;

fn fmt(rate: u32, channels: u16, kind: SampleKind) -> StreamFormat {
    StreamFormat { sample_rate: rate, channel_count: channels, sample_kind: kind }
}

#[test]
fn rate_mismatch_is_rejected_and_bridge_stays_stopped() {
    let mut bridge = Bridge::new();
    let input = fmt(44100, 2, SampleKind::Float32);
    let output = fmt(48000, 2, SampleKind::Float32);
    let r = bridge.start(input, output, 2, 8);
    assert_eq!(r, Err(ConfigError::SampleRateMismatch));
    assert_eq!(bridge.state(), BridgeState::Stopped);
}

#[test]
fn kind_mismatch_is_rejected() {
    let input = fmt(44100, 2, SampleKind::Int16);
    let output = fmt(44100, 2, SampleKind::Float32);
    assert_eq!(validate_config(&input, &output, 2), Err(ConfigError::SampleKindMismatch));
}

#[test]
fn unsupported_channel_combinations_are_rejected() {
    let kind = SampleKind::Float32;
    // Three input channels cannot feed two logical channels.
    assert_eq!(
        validate_config(&fmt(44100, 3, kind), &fmt(44100, 2, kind), 2),
        Err(ConfigError::UnsupportedInputChannels)
    );
    // Two logical channels cannot feed three output channels.
    assert_eq!(
        validate_config(&fmt(44100, 2, kind), &fmt(44100, 3, kind), 2),
        Err(ConfigError::UnsupportedOutputChannels)
    );
    // Mono input broadcast to stereo logical channels, stereo out: fine.
    assert_eq!(validate_config(&fmt(44100, 1, kind), &fmt(44100, 2, kind), 2), Ok(()));
    // Stereo in, mono out: fine (first logical channel is kept).
    assert_eq!(validate_config(&fmt(44100, 2, kind), &fmt(44100, 1, kind), 2), Ok(()));
}

#[test]
fn start_and_stop_transition_the_state_machine() {
    let mut bridge = Bridge::new();
    assert_eq!(bridge.state(), BridgeState::Stopped);
    let f = fmt(48000, 2, SampleKind::Float32);
    assert_eq!(bridge.start(f, f, 2, 16), Ok(()));
    assert_eq!(bridge.state(), BridgeState::Running);
    assert_eq!(bridge.format().sample_rate, 48000);
    assert_eq!(bridge.format().channel_count, 2);
    bridge.stop();
    assert_eq!(bridge.state(), BridgeState::Stopped);
    // stop is idempotent: stopping a stopped bridge is a no-op.
    bridge.stop();
    assert_eq!(bridge.state(), BridgeState::Stopped);
}

#[test]
fn stereo_loopback_through_the_bridge() {
    let mut bridge = Bridge::new();
    let f = fmt(48000, 2, SampleKind::Float32);
    assert_eq!(bridge.start(f, f, 2, 8), Ok(()));
    // Two interleaved stereo frames: [L0, R0, L1, R1].
    let data = vec![10, -20, 30, -40];
    let dropped = bridge.capture(&data, 2);
    assert_eq!(dropped, 0);
    let out = bridge.render(3, 2);
    // Two captured frames come back in order; the third frame is silence.
    assert_eq!(out, vec![10, -20, 30, -40, 0, 0]);
}

#[test]
fn mono_to_stereo_and_back_to_mono() {
    let mut bridge = Bridge::new();
    let input = fmt(44100, 1, SampleKind::Float32);
    let output = fmt(44100, 1, SampleKind::Float32);
    assert_eq!(bridge.start(input, output, 2, 4), Ok(()));
    // Mono capture is broadcast to both logical channels.
    let data = vec![7, 8];
    assert_eq!(bridge.capture(&data, 1), 0);
    // Mono render keeps the first logical channel but consumes both.
    let out = bridge.render(2, 1);
    assert_eq!(out, vec![7, 8]);
    // Both rings were drained: the next block is silence.
    assert_eq!(bridge.render(1, 1), vec![0]);
}

#[test]
fn int16_loopback_converts_through_the_normalized_domain() {
    let mut bridge = Bridge::new();
    let f = fmt(44100, 2, SampleKind::Int16);
    assert_eq!(bridge.start(f, f, 2, 8), Ok(()));
    let data = vec![1000, -1000, 32767, -32768];
    assert_eq!(bridge.capture(&data, 2), 0);
    let out = bridge.render(2, 2);
    assert_eq!(out, vec![1000, -1000, 32767, -32768]);
}

#[test]
fn capture_overrun_drops_samples_and_counts_them() {
    let mut bridge = Bridge::new();
    let f = fmt(48000, 2, SampleKind::Float32);
    assert_eq!(bridge.start(f, f, 2, 2), Ok(()));
    // Three stereo frames against rings of capacity 2: one frame is dropped
    // on each logical channel.
    let data = vec![1, 2, 3, 4, 5, 6];
    let dropped = bridge.capture(&data, 2);
    assert_eq!(dropped, 2);
    let out = bridge.render(2, 2);
    assert_eq!(out, vec![1, 2, 3, 4]);
}
