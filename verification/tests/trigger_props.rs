// The scope capture buffer: free-running window, edge arming, one-shot fill.

use calipertron::trigger::TriggerBuffer;

#[test]
fn free_running_window_rolls() {
    let mut b = TriggerBuffer::new(4, None);
    for v in [1u16, 2, 3, 4] {
        b.push_sample(v);
    }
    assert_eq!(b.snapshot(), vec![1, 2, 3, 4]);
    b.push_sample(5);
    // The oldest sample rolls out once the window is full.
    assert_eq!(b.snapshot(), vec![2, 3, 4, 5]);
    b.push_sample(6);
    assert_eq!(b.snapshot(), vec![3, 4, 5, 6]);
}

#[test]
fn rising_edge_arms_and_clears() {
    let mut b = TriggerBuffer::new(8, Some(100));
    // Below the threshold: waiting, nothing collected.
    b.push_sample(50);
    b.push_sample(90);
    assert_eq!(b.snapshot(), Vec::<u16>::new());
    // The rising edge through the threshold arms and clears.
    b.push_sample(150);
    assert_eq!(b.snapshot(), Vec::<u16>::new());
    // Armed: samples are collected.
    b.push_sample(160);
    b.push_sample(170);
    assert_eq!(b.snapshot(), vec![160, 170]);
}

#[test]
fn no_arming_without_an_edge() {
    // Disarm by filling a capture, then stay above the threshold: without
    // a fresh rising edge nothing more is collected.
    let mut c = TriggerBuffer::new(4, Some(100));
    c.push_sample(150);
    for v in [151u16, 152, 153, 154] {
        c.push_sample(v);
    }
    let filled = c.snapshot();
    assert_eq!(filled, vec![151, 152, 153, 154]);
    // Disarmed and still above threshold: no new capture, no rolling.
    c.push_sample(200);
    c.push_sample(250);
    assert_eq!(c.snapshot(), filled);
}

#[test]
fn capture_fills_to_capacity_then_stops() {
    let mut b = TriggerBuffer::new(3, Some(10));
    b.push_sample(5);
    b.push_sample(20);
    for v in [21u16, 22, 23, 24, 25] {
        b.push_sample(v);
    }
    // Exactly the first `capacity` samples after arming are kept.
    assert_eq!(b.snapshot(), vec![21, 22, 23]);
}

#[test]
fn rearming_needs_a_new_edge() {
    let mut b = TriggerBuffer::new(2, Some(10));
    b.push_sample(0);
    b.push_sample(20);
    b.push_sample(30);
    b.push_sample(40);
    assert_eq!(b.snapshot(), vec![30, 40]);
    // Fall below, then rise again: a fresh capture replaces the old one.
    b.push_sample(5);
    b.push_sample(50);
    b.push_sample(60);
    assert_eq!(b.snapshot(), vec![60]);
}

#[test]
fn threshold_can_change_modes() {
    let mut b = TriggerBuffer::new(4, None);
    for v in [1u16, 2, 3] {
        b.push_sample(v);
    }
    b.set_threshold(Some(10));
    // Waiting for an edge now: samples are not collected.
    b.push_sample(4);
    assert_eq!(b.snapshot(), vec![1, 2, 3]);
    b.push_sample(50);
    // Edge: armed, buffer cleared.
    assert_eq!(b.snapshot(), Vec::<u16>::new());
}
