use telekinesis::{Pattern, PatternError, PatternPoint};

fn pt(at: u64, value: u16) -> PatternPoint {
    PatternPoint { at, value }
}

#[test]
fn empty_pattern_is_an_error() {
    assert_eq!(Pattern::new(&vec![]).unwrap_err(), PatternError::Empty);
    assert_eq!(Pattern::from_funscript(&vec![]).unwrap_err(), PatternError::Empty);
}

#[test]
fn single_point_is_constant() {
    let p = Pattern::new(&vec![pt(0, 40)]).unwrap();
    assert_eq!(p.period(), 0);
    assert_eq!(p.sample(0), 40);
    assert_eq!(p.sample(12345), 40);
}

#[test]
fn interpolates_between_points() {
    let p = Pattern::new(&vec![pt(0, 0), pt(100, 100)]).unwrap();
    assert_eq!(p.sample(0), 0);
    assert_eq!(p.sample(25), 25);
    assert_eq!(p.sample(50), 50);
    assert_eq!(p.sample(99), 99);
}

#[test]
fn interpolates_downwards_towards_first_value() {
    let p = Pattern::new(&vec![pt(0, 100), pt(30, 0), pt(60, 0)]).unwrap();
    // 100 - 100 * 10 / 30 = 100 - 33
    assert_eq!(p.sample(10), 67);
    assert_eq!(p.sample(30), 0);
}

#[test]
fn before_first_point_holds_first_value() {
    let p = Pattern::new(&vec![pt(50, 20), pt(100, 80)]).unwrap();
    assert_eq!(p.sample(10), 20);
    assert_eq!(p.sample(75), 50);
}

#[test]
fn loops_over_period() {
    let p = Pattern::new(&vec![pt(0, 0), pt(100, 100), pt(200, 0)]).unwrap();
    assert_eq!(p.period(), 200);
    for t in [0u64, 37, 100, 150, 199] {
        for k in 0u64..5 {
            assert_eq!(p.sample(t), p.sample(t + k * 200));
        }
    }
    assert_eq!(p.sample(250), 50);
}

#[test]
fn sorts_and_keeps_first_of_duplicates() {
    let p = Pattern::new(&vec![pt(100, 10), pt(0, 0), pt(100, 90), pt(50, 50)]).unwrap();
    assert_eq!(p.len(), 3);
    assert_eq!(p.period(), 100);
    assert_eq!(p.sample(50), 50);
    assert_eq!(p.sample(75), 30);
}

#[test]
fn from_funscript_clamps_and_sorts() {
    let actions = vec![
        funscript::FSPoint { pos: 150, at: 100 },
        funscript::FSPoint { pos: 0, at: -20 },
    ];
    let p = Pattern::from_funscript(&actions).unwrap();
    assert_eq!(p.len(), 2);
    assert_eq!(p.period(), 100);
    assert_eq!(p.sample(0), 0);
    assert_eq!(p.sample(50), 50);
}
