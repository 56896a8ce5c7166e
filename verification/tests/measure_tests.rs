//! Tests for width measurements.

use luxor::Measurement;

#[test]
fn test_new() {
    let measurement = Measurement::new(10, 20);
    assert_eq!(measurement.minimum(), 10);
    assert_eq!(measurement.maximum(), 20);
}

#[test]
fn test_fixed() {
    let measurement = Measurement::fixed(15);
    assert_eq!(measurement.minimum(), 15);
    assert_eq!(measurement.maximum(), 15);
    assert!(measurement.is_fixed());
    assert_eq!(measurement.get_fixed(), Some(15));
}

#[test]
fn test_span() {
    let measurement = Measurement::span(100);
    assert_eq!(measurement.minimum(), 0);
    assert_eq!(measurement.maximum(), 100);
    assert!(!measurement.is_fixed());
    assert_eq!(measurement.get_fixed(), None);
}

#[test]
fn test_clamp() {
    let measurement = Measurement::new(10, 50);
    let clamped = measurement.clamp(20, 40);
    assert_eq!(clamped.minimum(), 20);
    assert_eq!(clamped.maximum(), 40);
}

#[test]
fn test_add_width() {
    let measurement = Measurement::new(10, 20);
    let expanded = measurement.add_width(5);
    assert_eq!(expanded.minimum(), 15);
    assert_eq!(expanded.maximum(), 25);
}

#[test]
fn test_subtract_width() {
    let measurement = Measurement::new(10, 20);
    let reduced = measurement.subtract_width(3);
    assert_eq!(reduced.minimum(), 7);
    assert_eq!(reduced.maximum(), 17);
}

#[test]
fn test_subtract_width_saturating() {
    let measurement = Measurement::new(5, 10);
    let reduced = measurement.subtract_width(8);
    assert_eq!(reduced.minimum(), 0);
    assert_eq!(reduced.maximum(), 2);
}

#[test]
fn test_max_with() {
    let m1 = Measurement::new(10, 30);
    let m2 = Measurement::new(15, 25);
    let combined = m1.max_with(m2);
    assert_eq!(combined.minimum(), 15);
    assert_eq!(combined.maximum(), 30);
}

#[test]
fn test_add_with() {
    let m1 = Measurement::new(10, 20);
    let m2 = Measurement::new(5, 15);
    let combined = m1.add_with(m2);
    assert_eq!(combined.minimum(), 15);
    assert_eq!(combined.maximum(), 35);
}

#[test]
fn test_default() {
    let measurement = Measurement::default();
    assert_eq!(measurement.minimum(), 0);
    assert_eq!(measurement.maximum(), 0);
    assert!(measurement.is_fixed());
}
