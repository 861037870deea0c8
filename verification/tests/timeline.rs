use lib::{MarkingTimeline, TempoMapEntry};

fn marking(beat: f64, bpm: f64, label: Option<&str>) -> TempoMapEntry<f64> {
    TempoMapEntry::new(beat, bpm, label.map(|s| s.to_string()))
}

fn bpm_at(t: &MarkingTimeline<TempoMapEntry<f64>>, default_bpm: f64, beat: u64) -> f64 {
    match t.find_at_or_before(beat) {
        Some(i) => t.payloads()[i].bpm(),
        None => default_bpm,
    }
}

#[test]
fn timeline_empty_gives_default() {
    let t: MarkingTimeline<TempoMapEntry<f64>> = MarkingTimeline::new();
    assert!(t.is_empty());
    assert_eq!(bpm_at(&t, 120.0, 0), 120.0);
    assert_eq!(bpm_at(&t, 120.0, 100), 120.0);
}

#[test]
fn timeline_lookup_between_markings() {
    let mut t = MarkingTimeline::new();
    t.insert(0, marking(0.0, 80.0, Some("Intro")));
    t.insert(16, marking(16.0, 120.0, Some("Theme")));
    t.insert(48, marking(48.0, 100.0, Some("Bridge")));
    t.insert(64, marking(64.0, 140.0, Some("Finale")));
    assert_eq!(t.len(), 4);
    assert_eq!(bpm_at(&t, 120.0, 0), 80.0);
    assert_eq!(bpm_at(&t, 120.0, 15), 80.0);
    assert_eq!(bpm_at(&t, 120.0, 16), 120.0);
    assert_eq!(bpm_at(&t, 120.0, 32), 120.0);
    assert_eq!(bpm_at(&t, 120.0, 48), 100.0);
    assert_eq!(bpm_at(&t, 120.0, 60), 100.0);
    assert_eq!(bpm_at(&t, 120.0, 64), 140.0);
}

#[test]
fn timeline_lookup_after_last() {
    let mut t = MarkingTimeline::new();
    t.insert(0, marking(0.0, 100.0, None));
    t.insert(8, marking(8.0, 120.0, None));
    assert_eq!(bpm_at(&t, 120.0, 100), 120.0);
}

#[test]
fn timeline_default_when_empty() {
    let t: MarkingTimeline<TempoMapEntry<f64>> = MarkingTimeline::new();
    assert_eq!(bpm_at(&t, 90.0, 0), 90.0);
}

#[test]
fn timeline_unordered_inserts() {
    let mut t = MarkingTimeline::new();
    t.insert(32, marking(32.0, 140.0, None));
    t.insert(0, marking(0.0, 80.0, None));
    t.insert(16, marking(16.0, 120.0, None));
    assert_eq!(bpm_at(&t, 120.0, 0), 80.0);
    assert_eq!(bpm_at(&t, 120.0, 16), 120.0);
    assert_eq!(bpm_at(&t, 120.0, 32), 140.0);
}

#[test]
fn timeline_payloads_in_order() {
    let mut t = MarkingTimeline::new();
    t.insert(0, marking(0.0, 80.0, Some("A")));
    t.insert(16, marking(16.0, 120.0, Some("B")));
    let entries = t.payloads();
    assert_eq!(entries.len(), 2);
    assert_eq!(entries[0].label(), Some("A"));
    assert_eq!(entries[1].label(), Some("B"));
}

#[test]
fn timeline_insert_returns_position() {
    let mut t: MarkingTimeline<&str> = MarkingTimeline::new();
    assert_eq!(t.insert(10, "ten"), 0);
    assert_eq!(t.insert(30, "thirty"), 1);
    assert_eq!(t.insert(20, "twenty"), 1);
    assert_eq!(t.insert(0, "zero"), 0);
    assert_eq!(t.keys(), &[0, 10, 20, 30]);
    assert_eq!(t.payloads(), &["zero", "ten", "twenty", "thirty"]);
}

#[test]
fn timeline_equal_keys_keep_insertion_order() {
    let mut t: MarkingTimeline<&str> = MarkingTimeline::new();
    t.insert(5, "first");
    t.insert(5, "second");
    t.insert(1, "early");
    assert_eq!(t.insert(5, "third"), 3);
    assert_eq!(t.payloads(), &["early", "first", "second", "third"]);
    // The latest marking at a beat is the one in effect there.
    assert_eq!(t.find_at_or_before(5), Some(3));
}

#[test]
fn timeline_lookup_before_first_is_none() {
    let mut t: MarkingTimeline<u8> = MarkingTimeline::new();
    t.insert(8, 1);
    t.insert(12, 2);
    assert_eq!(t.find_at_or_before(7), None);
    assert_eq!(t.find_at_or_before(8), Some(0));
    assert_eq!(t.find_at_or_before(11), Some(0));
    assert_eq!(t.find_at_or_before(u64::MAX), Some(1));
}

#[test]
fn timeline_order_of_distinct_insertions_is_irrelevant() {
    let mut a: MarkingTimeline<char> = MarkingTimeline::new();
    let mut b: MarkingTimeline<char> = MarkingTimeline::new();
    for (k, p) in [(3u64, 'c'), (1, 'a'), (2, 'b')] {
        a.insert(k, p);
    }
    for (k, p) in [(2u64, 'b'), (3, 'c'), (1, 'a')] {
        b.insert(k, p);
    }
    assert_eq!(a.keys(), b.keys());
    assert_eq!(a.payloads(), b.payloads());
}

#[test]
fn map_entry_accessors() {
    let e = marking(16.0, 120.0, Some("Theme"));
    assert_eq!(e.start_beat(), 16.0);
    assert_eq!(e.bpm(), 120.0);
    assert_eq!(e.label(), Some("Theme"));
    assert_eq!(marking(0.0, 80.0, None).label(), None);
}

#[test]
fn timeline_clone_keeps_markings() {
    let mut t: MarkingTimeline<String> = MarkingTimeline::new();
    t.insert(2, "b".to_string());
    t.insert(1, "a".to_string());
    let c = t.clone();
    t.insert(0, "z".to_string());
    assert_eq!(c.keys(), &[1, 2]);
    assert_eq!(c.payloads(), &["a".to_string(), "b".to_string()]);
    assert_eq!(t.len(), 3);
}
