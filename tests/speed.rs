use telekinesis::{Speed, TkDuration};

#[test]
fn speed_new_clamps_below_zero() {
    assert_eq!(Speed::new(-5).value, 0);
    assert_eq!(Speed::new(i64::MIN).value, 0);
}

#[test]
fn speed_new_clamps_above_hundred() {
    assert_eq!(Speed::new(150).value, 100);
    assert_eq!(Speed::new(i64::MAX).value, 100);
}

#[test]
fn speed_new_keeps_range() {
    assert_eq!(Speed::new(0).value, 0);
    assert_eq!(Speed::new(42).value, 42);
    assert_eq!(Speed::new(100).value, 100);
}

#[test]
fn speed_bounds() {
    assert_eq!(Speed::min().value, 0);
    assert_eq!(Speed::max().value, 100);
}

#[test]
fn speed_from_funscript_point() {
    assert_eq!(Speed::from_fs(&funscript::FSPoint { pos: 55, at: 10 }).value, 55);
    assert_eq!(Speed::from_fs(&funscript::FSPoint { pos: 300, at: 10 }).value, 100);
    assert_eq!(Speed::from_fs(&funscript::FSPoint { pos: -3, at: 10 }).value, 0);
}

#[test]
fn durations() {
    assert_eq!(TkDuration::from_millis(250), TkDuration::Timed(250));
    assert_eq!(TkDuration::from_secs(3), TkDuration::Timed(3000));
    assert_eq!(TkDuration::from_secs(u64::MAX), TkDuration::Timed(u64::MAX));
}
