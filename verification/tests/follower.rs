use lib::TempoFollower;
use std::time::Instant;

fn follower(id: &str) -> TempoFollower<Instant, f64> {
    TempoFollower::with_smoothing_factor(id.to_string(), 0.3)
}

#[test]
fn test_follower_creation() {
    let f = follower("leader-1");
    assert_eq!(f.leader_id(), "leader-1");
    assert!(f.estimated_bpm().is_none());
    assert_eq!(f.observed_count(), 0);
}

#[test]
fn test_follower_reset() {
    let mut f = follower("leader");
    f.record_beat(Instant::now());
    f.record_beat(Instant::now());
    f.reset();
    assert_eq!(f.observed_count(), 0);
    assert!(f.estimated_bpm().is_none());
}

#[test]
fn test_follower_window_size() {
    let mut f = follower("leader").with_window_size(4);
    for _ in 0..10 {
        f.record_beat(Instant::now());
    }
    assert_eq!(f.observed_count(), 4);
}

#[test]
fn follower_defaults() {
    let f = follower("x");
    assert_eq!(f.window_size(), 16);
    assert_eq!(f.smoothing(), 0.3);
    assert!(f.beat_span().is_none());
}

#[test]
fn follower_span_and_estimate() {
    let mut f: TempoFollower<u64, f64> = TempoFollower::with_smoothing_factor("l".to_string(), 0.3);
    for i in 0..5u64 {
        f.record_beat(500 * i);
    }
    let (first, last, intervals) = f.beat_span().unwrap();
    assert_eq!((*first, *last, intervals), (0, 2000, 4));
    f.set_estimate(120.0);
    assert_eq!(f.estimated_bpm(), Some(120.0));
    f.record_beat(2500);
    assert_eq!(f.estimated_bpm(), Some(120.0));
    assert_eq!(f.beats(), &[0, 500, 1000, 1500, 2000, 2500]);
}

#[test]
fn follower_builders_keep_other_parts() {
    let mut f: TempoFollower<u64, f64> = TempoFollower::with_smoothing_factor("l".to_string(), 0.3);
    f.record_beat(1);
    f.set_estimate(90.0);
    let f = f.with_window_size(1).smoothed_by(0.5);
    assert_eq!(f.window_size(), 2);
    assert_eq!(f.smoothing(), 0.5);
    assert_eq!(f.estimated_bpm(), Some(90.0));
    assert_eq!(f.beats(), &[1]);
    assert_eq!(f.leader_id(), "l");
}
