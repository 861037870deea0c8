use lib::{CurveShape, TempoCurve};

fn programmed(start: f64, end: f64, beats: u32) -> TempoCurve<f64> {
    TempoCurve::transition(start, end, beats, (start - end).abs() < 0.01, end > start)
}

#[test]
fn test_accelerando_curve() {
    let c = programmed(80.0, 140.0, 16);
    assert_eq!(c.shape(), CurveShape::Accelerando);
    assert!(c.is_accelerando());
    assert!(!c.is_ritardando());
}

#[test]
fn test_ritardando_curve() {
    let c = programmed(140.0, 80.0, 16);
    assert_eq!(c.shape(), CurveShape::Ritardando);
    assert!(c.is_ritardando());
}

#[test]
fn test_flat_curve() {
    let c = programmed(120.0, 120.0, 8);
    assert_eq!(c.shape(), CurveShape::Flat);
}

#[test]
fn test_curve_with_label() {
    let c = programmed(60.0, 120.0, 8).with_label("crescendo section".to_string());
    assert_eq!(c.label(), Some("crescendo section"));
}

#[test]
fn test_rubato_curve() {
    let c = TempoCurve::rubato_to(120.0, 120.0 + 10.0, 32);
    assert_eq!(c.shape(), CurveShape::Rubato);
    assert_eq!(c.start_bpm(), 120.0);
    assert_eq!(c.end_bpm(), 130.0);
}

#[test]
fn curve_duration_is_at_least_one_beat() {
    assert_eq!(TempoCurve::rubato_to(100.0, 110.0, 0).duration_beats(), 1);
    assert_eq!(programmed(100.0, 110.0, 0).duration_beats(), 1);
    assert_eq!(programmed(100.0, 110.0, 16).duration_beats(), 16);
}

#[test]
fn curve_label_is_absent_until_given() {
    let c = programmed(80.0, 140.0, 16);
    assert_eq!(c.label(), None);
    let c = c.with_label("ramp up".to_string());
    assert_eq!(c.label(), Some("ramp up"));
    assert_eq!(c.start_bpm(), 80.0);
    assert_eq!(c.end_bpm(), 140.0);
    assert_eq!(c.duration_beats(), 16);
    assert_eq!(c.shape(), CurveShape::Accelerando);
}

#[test]
fn shape_classification_table() {
    assert_eq!(CurveShape::classify(true, true), CurveShape::Flat);
    assert_eq!(CurveShape::classify(true, false), CurveShape::Flat);
    assert_eq!(CurveShape::classify(false, true), CurveShape::Accelerando);
    assert_eq!(CurveShape::classify(false, false), CurveShape::Ritardando);
}

#[test]
fn shape_queries() {
    assert!(CurveShape::Accelerando.is_accelerando());
    assert!(!CurveShape::Rubato.is_accelerando());
    assert!(CurveShape::Ritardando.is_ritardando());
    assert!(!CurveShape::Flat.is_ritardando());
    assert!(!CurveShape::Flat.is_eased());
    assert!(CurveShape::Rubato.is_eased());
    assert!(CurveShape::Accelerando.is_eased());
    assert!(CurveShape::Ritardando.is_eased());
}
