use wcircle::angle::{branch_cut_delta, wrap_angle, FULL_TURN, HALF_TURN, UNITS_PER_DEGREE};
use wcircle::calibration::{normalize, CalibrationBounds, ConfigError, NormalizedPoint, UNIT};
use wcircle::gesture::{emit_ticks, in_rim, GestureConfig, GestureState};

const DEG: i64 = UNITS_PER_DEGREE;

fn six_degree_config(invert: bool) -> GestureConfig {
    GestureConfig::new(800_000, 1_000_000, 6_000_000, invert).unwrap()
}

fn on_rim() -> NormalizedPoint {
    NormalizedPoint { nx: 900_000, ny: 0 }
}

fn off_rim() -> NormalizedPoint {
    NormalizedPoint { nx: 100_000, ny: 100_000 }
}

#[test]
fn corners_map_to_unit_square_corners() {
    let b = CalibrationBounds::standard();
    assert_eq!(normalize(&b, 1232, 1074), NormalizedPoint { nx: -UNIT, ny: -UNIT });
    assert_eq!(normalize(&b, 5712, 4780), NormalizedPoint { nx: UNIT, ny: UNIT });
}

#[test]
fn center_and_outside_values_normalize() {
    let b = CalibrationBounds::new(0, 100, -50, 50).unwrap();
    assert_eq!(normalize(&b, 50, 0), NormalizedPoint { nx: 0, ny: 0 });
    assert_eq!(normalize(&b, 200, 150), NormalizedPoint { nx: 3 * UNIT, ny: 3 * UNIT });
    // rounds down, also below the range
    let c = CalibrationBounds::new(0, 3, 0, 3).unwrap();
    assert_eq!(normalize(&c, 1, -1), NormalizedPoint { nx: -333_334, ny: -1_666_667 });
}

#[test]
fn degenerate_calibration_is_rejected() {
    assert_eq!(CalibrationBounds::new(5, 5, 0, 1), Err(ConfigError::DegenerateXRange));
    assert_eq!(CalibrationBounds::new(0, 1, 9, 2), Err(ConfigError::DegenerateYRange));
}

#[test]
fn invalid_gesture_config_is_rejected() {
    assert_eq!(GestureConfig::new(0, 1, 0, false), Err(ConfigError::ZeroAngleStep));
    assert_eq!(GestureConfig::new(2, 1, 5, false), Err(ConfigError::EmptyRim));
    assert_eq!(GestureConfig::new(1, 1, 5, true).unwrap().invert, true);
}

#[test]
fn rim_classification() {
    let cfg = GestureConfig::standard();
    assert!(in_rim(&cfg, &on_rim()));
    assert!(in_rim(&cfg, &NormalizedPoint { nx: 0, ny: -UNIT }));
    assert!(in_rim(&cfg, &NormalizedPoint { nx: 480_000, ny: 640_000 }));
    assert!(!in_rim(&cfg, &NormalizedPoint { nx: 479_999, ny: 640_000 }));
    assert!(!in_rim(&cfg, &NormalizedPoint { nx: UNIT, ny: 1 }));
    assert!(!in_rim(&cfg, &off_rim()));
    assert!(!in_rim(&cfg, &NormalizedPoint { nx: i64::MIN, ny: i64::MIN }));
}

#[test]
fn branch_cut_takes_shorter_way() {
    assert_eq!(branch_cut_delta(170 * DEG, -170 * DEG), 20 * DEG);
    assert_eq!(branch_cut_delta(-170 * DEG, 170 * DEG), -20 * DEG);
    assert_eq!(branch_cut_delta(10 * DEG, 30 * DEG), 20 * DEG);
    assert_eq!(branch_cut_delta(-HALF_TURN + 1, HALF_TURN), -1);
    assert_eq!(branch_cut_delta(0, HALF_TURN), HALF_TURN);
}

#[test]
fn wrap_angle_is_canonical() {
    assert_eq!(wrap_angle(-HALF_TURN), HALF_TURN);
    assert_eq!(wrap_angle(HALF_TURN), HALF_TURN);
    assert_eq!(wrap_angle(190 * DEG), -170 * DEG);
    assert_eq!(wrap_angle(5 * DEG + 3 * FULL_TURN), 5 * DEG);
    assert_eq!(wrap_angle(0), 0);
    let w = wrap_angle(i64::MIN);
    assert!(-HALF_TURN < w && w <= HALF_TURN);
}

#[test]
fn emitter_moves_toward_zero() {
    let mut acc: i64 = 14;
    assert_eq!(emit_ticks(&mut acc, 6, false), vec![1, 1]);
    assert_eq!(acc, 2);
    let mut acc: i64 = -13;
    assert_eq!(emit_ticks(&mut acc, 6, true), vec![1, 1]);
    assert_eq!(acc, -1);
    let mut acc: i64 = 12;
    assert_eq!(emit_ticks(&mut acc, 6, true), vec![-1, -1]);
    assert_eq!(acc, 0);
    let mut acc: i64 = -5;
    assert_eq!(emit_ticks(&mut acc, 6, false), Vec::<i32>::new());
    assert_eq!(acc, -5);
}

#[test]
fn clockwise_scenario_scrolls_down() {
    let cfg = six_degree_config(false);
    let mut s = GestureState::new();
    assert_eq!(s.process(&cfg, &on_rim(), 0), Vec::<i32>::new());
    assert_eq!(s.process(&cfg, &on_rim(), 10 * DEG), vec![1]);
    assert_eq!(s.theta_acc, 4 * DEG);
    assert_eq!(s.process(&cfg, &on_rim(), 20 * DEG), vec![1, 1]);
    assert_eq!(s.theta_acc, 2 * DEG);
    assert_eq!(s.last_theta, Some(20 * DEG));
}

#[test]
fn counter_clockwise_scenario_scrolls_up() {
    let cfg = six_degree_config(false);
    let mut s = GestureState::new();
    assert_eq!(s.process(&cfg, &on_rim(), 0), Vec::<i32>::new());
    assert_eq!(s.process(&cfg, &on_rim(), -10 * DEG), vec![-1]);
    assert_eq!(s.theta_acc, -4 * DEG);
}

#[test]
fn invert_swaps_directions() {
    let cfg = six_degree_config(true);
    let mut s = GestureState::new();
    s.process(&cfg, &on_rim(), 0);
    assert_eq!(s.process(&cfg, &on_rim(), 10 * DEG), vec![-1]);
    assert_eq!(s.process(&cfg, &on_rim(), 20 * DEG), vec![-1, -1]);
    let mut t = GestureState::new();
    t.process(&cfg, &on_rim(), 0);
    assert_eq!(t.process(&cfg, &on_rim(), -10 * DEG), vec![1]);
    assert_eq!(t.theta_acc, -4 * DEG);
}

#[test]
fn crossing_the_seam_counts_the_short_arc() {
    let cfg = six_degree_config(false);
    let mut s = GestureState::new();
    s.process(&cfg, &on_rim(), 175 * DEG);
    assert_eq!(s.process(&cfg, &on_rim(), -173 * DEG), vec![1, 1]);
    assert_eq!(s.theta_acc, 0);
}

#[test]
fn still_finger_changes_nothing() {
    let cfg = six_degree_config(false);
    let mut s = GestureState::new();
    s.process(&cfg, &on_rim(), 30 * DEG);
    s.process(&cfg, &on_rim(), 35 * DEG);
    let before = s;
    for _ in 0..5 {
        assert_eq!(s.process(&cfg, &on_rim(), 35 * DEG), Vec::<i32>::new());
        assert_eq!(s, before);
    }
}

#[test]
fn leaving_the_rim_resets() {
    let cfg = six_degree_config(false);
    let mut s = GestureState::new();
    s.process(&cfg, &on_rim(), 0);
    s.process(&cfg, &on_rim(), 5 * DEG);
    assert_eq!(s.theta_acc, 5 * DEG);
    assert_eq!(s.process(&cfg, &off_rim(), 90 * DEG), Vec::<i32>::new());
    assert_eq!(s, GestureState::new());
    assert_eq!(s.process(&cfg, &on_rim(), 100 * DEG), Vec::<i32>::new());
    assert_eq!(s.theta_acc, 0);
    assert_eq!(s.last_theta, Some(100 * DEG));
    s.reset();
    assert_eq!(s, GestureState::new());
}

#[test]
fn ticks_add_up_to_travel() {
    let cfg = six_degree_config(false);
    let mut s = GestureState::new();
    let mut net: i64 = 0;
    let mut count: usize = 0;
    let mut theta: i64 = 0;
    s.process(&cfg, &on_rim(), theta);
    for _ in 0..40 {
        theta = wrap_angle(theta + 7 * DEG);
        let ticks = s.process(&cfg, &on_rim(), theta);
        count += ticks.len();
        net += ticks.iter().map(|t| *t as i64).sum::<i64>();
    }
    // 280 degrees of clockwise travel: 46 ticks of 6 degrees, 4 left over
    assert_eq!(count, 46);
    assert_eq!(net, 46);
    assert_eq!(s.theta_acc, 4 * DEG);
}
