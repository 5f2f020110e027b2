use wcircle::pairing::{SamplePairer, AXIS_X, AXIS_Y};

#[test]
fn pair_forms_once_both_axes_are_fresh() {
    let mut p = SamplePairer::new();
    assert_eq!(p.record(AXIS_X, 10), None);
    assert_eq!(p.record(AXIS_X, 11), None);
    assert_eq!(p.record(AXIS_Y, 20), Some((11, 20)));
    assert_eq!(p, SamplePairer::new());
    assert_eq!(p.record(AXIS_Y, 21), None);
    assert_eq!(p.record(AXIS_X, 12), Some((12, 21)));
}

#[test]
fn other_axes_are_ignored() {
    let mut p = SamplePairer::new();
    assert_eq!(p.record(24, 5), None);
    assert_eq!(p.record(AXIS_X, 1), None);
    assert_eq!(p.record(57, 5), None);
    assert_eq!(p.last_x, Some(1));
    assert_eq!(p.last_y, None);
}
