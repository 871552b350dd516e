use audio_bridge::ring::ChannelRing;
use audio_bridge::sample::Sample;

/// A normalized sample from a floating-point value, scaled onto the
/// fixed-point grid the way the device layer does it.
fn s(x: f32) -> Sample {
    Sample { steps: (x * 16776704.0f32).round() as i32 }
}

#[test]
fn pop_on_empty_returns_empty() {
    let mut ring = ChannelRing::new(4);
    assert_eq!(ring.try_pop(), None);
    assert_eq!(ring.try_pop(), None);
    assert!(ring.is_empty());
}

#[test]
fn push_on_full_returns_full() {
    let mut ring = ChannelRing::new(2);
    assert!(ring.try_push(s(0.1)));
    assert!(ring.try_push(s(0.2)));
    assert!(ring.is_full());
    assert!(!ring.try_push(s(0.3)));
    assert!(!ring.try_push(s(0.4)));
    assert_eq!(ring.len(), 2);
}

#[test]
fn fifo_order_scenario() {
    // Push three frames into a left-channel ring of capacity 8, pop them
    // back in order, then hit underrun.
    let mut left = ChannelRing::new(8);
    assert!(left.try_push(s(0.1)));
    assert!(left.try_push(s(-0.2)));
    assert!(left.try_push(s(0.3)));
    assert_eq!(left.try_pop(), Some(s(0.1)));
    assert_eq!(left.try_pop(), Some(s(-0.2)));
    assert_eq!(left.try_pop(), Some(s(0.3)));
    assert_eq!(left.try_pop(), None);
}

#[test]
fn overrun_drops_newest_scenario() {
    // Capacity 2: the third push fails and its sample is not stored.
    let mut ring = ChannelRing::new(2);
    assert!(ring.try_push(s(0.5)));
    assert!(ring.try_push(s(0.6)));
    assert!(!ring.try_push(s(0.7)));
    assert_eq!(ring.try_pop(), Some(s(0.5)));
    assert_eq!(ring.try_pop(), Some(s(0.6)));
    assert_eq!(ring.try_pop(), None);
}

#[test]
fn balance_never_exceeds_capacity_or_goes_negative() {
    // Mixed pushes and pops against a ring of capacity 3: the running
    // difference of successes stays within [0, 3], and wrap-around keeps
    // FIFO order.
    let cap = 3usize;
    let mut ring = ChannelRing::new(cap);
    let mut ok_pushes = 0i64;
    let mut ok_pops = 0i64;
    let ops: [i32; 14] = [1, 1, 1, 1, -1, 1, -1, -1, -1, -1, 1, 1, -1, -1];
    let mut next = 0i32;
    let mut expected_front = 0i32;
    for op in ops.iter() {
        if *op > 0 {
            if ring.try_push(Sample { steps: next }) {
                ok_pushes += 1;
                next += 1;
            }
        } else {
            if let Some(got) = ring.try_pop() {
                ok_pops += 1;
                assert_eq!(got.steps, expected_front);
                expected_front += 1;
            }
        }
        let diff = ok_pushes - ok_pops;
        assert!(diff >= 0);
        assert!(diff <= cap as i64);
        assert_eq!(diff, ring.len() as i64);
    }
}

#[test]
fn pop_or_silence_substitutes_silence() {
    let mut ring = ChannelRing::new(2);
    assert!(ring.try_push(s(0.25)));
    assert_eq!(ring.pop_or_silence(), s(0.25));
    assert_eq!(ring.pop_or_silence(), Sample { steps: 0 });
    assert_eq!(ring.pop_or_silence(), Sample::silence());
}

#[test]
fn capacity_is_fixed_at_construction() {
    let mut ring = ChannelRing::new(5);
    assert_eq!(ring.capacity(), 5);
    for i in 0..5 {
        assert!(ring.try_push(Sample { steps: i }));
    }
    assert!(!ring.try_push(Sample { steps: 99 }));
    assert_eq!(ring.capacity(), 5);
    ring.try_pop();
    assert_eq!(ring.capacity(), 5);
}
