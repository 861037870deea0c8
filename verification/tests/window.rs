use lib::BeatWindow;
use std::time::Instant;

#[test]
fn window_holds_at_most_its_size() {
    let mut w: BeatWindow<Instant> = BeatWindow::new().with_window_size(4);
    for _ in 0..10 {
        w.observe(Instant::now());
    }
    assert_eq!(w.len(), 4);
}

#[test]
fn window_starts_empty_with_default_size() {
    let w: BeatWindow<u64> = BeatWindow::new();
    assert_eq!(w.len(), 0);
    assert!(w.is_empty());
    assert_eq!(w.window_size(), 16);
    assert!(w.span().is_none());
}

#[test]
fn window_size_is_raised_to_two() {
    let w: BeatWindow<u64> = BeatWindow::new().with_window_size(0);
    assert_eq!(w.window_size(), 2);
    let w: BeatWindow<u64> = BeatWindow::new().with_window_size(1);
    assert_eq!(w.window_size(), 2);
    let w: BeatWindow<u64> = BeatWindow::new().with_window_size(7);
    assert_eq!(w.window_size(), 7);
}

#[test]
fn window_keeps_latest_observations() {
    let mut w: BeatWindow<u64> = BeatWindow::new().with_window_size(3);
    for t in 1..=5u64 {
        w.observe(t);
    }
    assert_eq!(w.beats(), &[3, 4, 5]);
}

#[test]
fn window_below_size_keeps_everything() {
    let mut w: BeatWindow<u64> = BeatWindow::new();
    for t in [10u64, 20, 30] {
        w.observe(t);
    }
    assert_eq!(w.beats(), &[10, 20, 30]);
}

#[test]
fn window_span_needs_two_beats() {
    let mut w: BeatWindow<u64> = BeatWindow::new();
    w.observe(500);
    assert!(w.span().is_none());
    w.observe(1000);
    w.observe(1500);
    let (first, last, intervals) = w.span().unwrap();
    assert_eq!(*first, 500);
    assert_eq!(*last, 1500);
    assert_eq!(intervals, 2);
}

#[test]
fn window_span_follows_eviction() {
    let mut w: BeatWindow<u64> = BeatWindow::new().with_window_size(2);
    for t in [0u64, 500, 1000, 1500] {
        w.observe(t);
    }
    let (first, last, intervals) = w.span().unwrap();
    assert_eq!((*first, *last, intervals), (1000, 1500, 1));
}

#[test]
fn window_clear_drops_observations() {
    let mut w: BeatWindow<Instant> = BeatWindow::new().with_window_size(5);
    w.observe(Instant::now());
    w.observe(Instant::now());
    w.clear();
    assert_eq!(w.len(), 0);
    assert_eq!(w.window_size(), 5);
}

#[test]
fn window_resize_keeps_held_beats() {
    let mut w: BeatWindow<u64> = BeatWindow::new();
    for t in 0..6u64 {
        w.observe(t);
    }
    let mut w = w.with_window_size(3);
    assert_eq!(w.len(), 6);
    w.observe(6);
    assert_eq!(w.beats(), &[1, 2, 3, 4, 5, 6]);
}
