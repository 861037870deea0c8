use lib::{RubatoProfile, TempoMarking};

#[test]
fn marking_from_parts() {
    let tm = TempoMarking::from_parts(120.0, 0.5, None);
    assert_eq!(tm.bpm(), 120.0);
    assert_eq!(tm.feel(), 0.5);
    assert!(tm.label().is_none());
}

#[test]
fn marking_with_label() {
    let tm = TempoMarking::from_parts(100.0, 0.2, Some("Moderato".to_string()));
    assert_eq!(tm.label(), Some("Moderato"));
}

#[test]
fn profile_from_parts() {
    let p = RubatoProfile::from_parts("test".to_string(), 0.1, 0.2, 0.5);
    assert_eq!(p.name(), "test");
    assert_eq!(p.max_compress(), 0.1);
    assert_eq!(p.max_stretch(), 0.2);
    assert_eq!(p.transition_rate(), 0.5);
}
