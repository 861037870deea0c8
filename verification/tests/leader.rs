use lib::{TempoCurve, TempoLeader, TempoMarking};

fn allegro() -> TempoMarking<f64> {
    TempoMarking::from_parts(140.0, 0.15, Some("Allegro".to_string()))
}

fn andante() -> TempoMarking<f64> {
    TempoMarking::from_parts(80.0, 0.2, Some("Andante".to_string()))
}

fn leader(tempo: TempoMarking<f64>) -> TempoLeader<f64> {
    TempoLeader::with_curve_origin("conductor".to_string(), tempo, 0.0)
}

#[test]
fn test_leader_creation() {
    let l = leader(allegro());
    assert_eq!(l.leader_id(), "conductor");
    assert_eq!(l.follower_count(), 0);
    assert!(!l.rubato_enabled());
    assert!(!l.curve_active());
}

#[test]
fn test_leader_followers() {
    let mut l = leader(allegro());
    l.add_follower("agent-a".to_string(), 0.0);
    l.add_follower("agent-b".to_string(), 10.0);
    assert_eq!(l.follower_count(), 2);
    let base = l.current_tempo().bpm();
    assert_eq!(base + l.follower_offset("agent-a").unwrap_or(0.0), 140.0);
    assert_eq!(base + l.follower_offset("agent-b").unwrap_or(0.0), 150.0);
    assert_eq!(base + l.follower_offset("unknown").unwrap_or(0.0), 140.0);
}

#[test]
fn test_leader_remove_follower() {
    let mut l = leader(andante());
    l.add_follower("agent-a".to_string(), 0.0);
    assert!(l.remove_follower("agent-a"));
    assert!(!l.remove_follower("agent-a"));
    assert_eq!(l.follower_count(), 0);
}

#[test]
fn test_leader_rubato() {
    let mut l = leader(allegro());
    l.set_rubato(true);
    assert!(l.rubato_enabled());
}

#[test]
fn leader_set_tempo_replaces_marking() {
    let mut l = leader(andante());
    l.set_tempo(TempoMarking::from_parts(180.0, 0.1, Some("Presto".to_string())));
    assert_eq!(l.current_tempo().bpm(), 180.0);
    assert_eq!(l.current_tempo().label(), Some("Presto"));
    assert!(!l.curve_active());
}

#[test]
fn leader_curve_lifecycle() {
    let mut l = leader(TempoMarking::from_parts(80.0, 0.0, None));
    let curve = TempoCurve::transition(80.0, 140.0, 16, false, true);
    l.begin_curve(curve, 0.0);
    assert!(l.curve_active());
    assert_eq!(l.curve_position(), 0.0);
    assert_eq!(l.active_curve().unwrap().end_bpm(), 140.0);
    l.set_curve_position(0.5);
    assert_eq!(l.curve_position(), 0.5);
    l.set_curve_position(1.0);
    l.finish_curve(TempoMarking::from_parts(140.0, 0.0, None));
    assert!(!l.curve_active());
    assert!(l.active_curve().is_none());
    assert_eq!(l.current_tempo().bpm(), 140.0);
    assert_eq!(l.curve_position(), 1.0);
}

#[test]
fn leader_followers_survive_tempo_changes() {
    let mut l = leader(andante());
    l.add_follower("a".to_string(), -5.0);
    l.set_tempo(allegro());
    l.set_rubato(true);
    assert_eq!(l.follower_offset("a"), Some(-5.0));
    l.add_follower("a".to_string(), 3.0);
    assert_eq!(l.follower_count(), 1);
    assert_eq!(l.follower_offset("a"), Some(3.0));
}

#[test]
fn leader_clone_is_independent() {
    let mut l = leader(allegro());
    l.add_follower("a".to_string(), 2.0);
    l.begin_curve(TempoCurve::transition(140.0, 100.0, 8, false, false).with_label("down".to_string()), 0.0);
    let copy = l.clone();
    l.add_follower("b".to_string(), 1.0);
    l.finish_curve(andante());
    assert_eq!(copy.follower_count(), 1);
    assert_eq!(copy.follower_offset("a"), Some(2.0));
    assert!(copy.curve_active());
    assert_eq!(copy.active_curve().unwrap().label(), Some("down"));
    assert_eq!(copy.current_tempo().bpm(), 140.0);
    assert_eq!(copy.leader_id(), "conductor");
}
