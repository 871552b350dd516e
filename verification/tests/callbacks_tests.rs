use audio_bridge::callbacks::{capture_block, capture_channel, pop_column, render_block};
use audio_bridge::ring::ChannelRing;
use audio_bridge::sample::SampleKind;

#[test]
fn capture_block_demuxes_and_converts() {
    let mut rings = vec![ChannelRing::new(8), ChannelRing::new(8)];
    // Two interleaved 16-bit stereo frames.
    let data = vec![100, -100, 200, -200];
    let dropped = capture_block(&mut rings, &data, 2, SampleKind::Int16);
    assert_eq!(dropped, 0);
    assert_eq!(rings[0].len(), 2);
    assert_eq!(rings[1].len(), 2);
    assert_eq!(rings[0].try_pop().unwrap().steps, 100 * 512);
    assert_eq!(rings[1].try_pop().unwrap().steps, -100 * 512);
    assert_eq!(rings[0].try_pop().unwrap().steps, 200 * 512);
    assert_eq!(rings[1].try_pop().unwrap().steps, -200 * 512);
}

#[test]
fn capture_block_counts_overrun_per_channel() {
    let mut rings = vec![ChannelRing::new(1), ChannelRing::new(2)];
    // Mono input broadcast to both logical channels, three frames.
    let data = vec![1, 2, 3];
    let dropped = capture_block(&mut rings, &data, 1, SampleKind::Float32);
    // The first ring keeps one sample and drops two; the second keeps two
    // and drops one.
    assert_eq!(dropped, 3);
    assert_eq!(rings[0].len(), 1);
    assert_eq!(rings[1].len(), 2);
}

#[test]
fn render_block_fills_the_whole_block_with_silence_on_underrun() {
    let mut rings = vec![ChannelRing::new(4), ChannelRing::new(4)];
    let data = vec![5, 6];
    assert_eq!(capture_block(&mut rings, &data, 2, SampleKind::Float32), 0);
    // Three frames requested, one frame queued: the rest is silence.
    let out = render_block(&mut rings, 3, 2, SampleKind::Float32);
    assert_eq!(out, vec![5, 6, 0, 0, 0, 0]);
}

#[test]
fn capture_channel_stores_a_prefix_against_a_full_ring() {
    let mut ring = ChannelRing::new(2);
    let data = vec![10, 20, 30, 40];
    let stored = capture_channel(&mut ring, &data, 1, 0, 4, SampleKind::Float32);
    assert_eq!(stored, 2);
    assert_eq!(ring.try_pop().unwrap().steps, 10);
    assert_eq!(ring.try_pop().unwrap().steps, 20);
    assert_eq!(ring.try_pop(), None);
}

#[test]
fn pop_column_reads_in_order_then_silence() {
    let mut ring = ChannelRing::new(4);
    let data = vec![7, 8];
    capture_channel(&mut ring, &data, 1, 0, 2, SampleKind::Float32);
    let col = pop_column(&mut ring, 4);
    let steps: Vec<i32> = col.iter().map(|s| s.steps).collect();
    assert_eq!(steps, vec![7, 8, 0, 0]);
    assert_eq!(ring.len(), 0);
}
