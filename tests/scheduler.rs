use telekinesis::{
    Pattern, PatternPoint, Scheduler, Speed, Task, TaskEnd, TkDuration,
};

fn ids(names: &[&str]) -> Vec<String> {
    names.iter().map(|n| String::from(*n)).collect()
}

fn writes_of(s: &mut Scheduler, now: u64) -> (Vec<(String, u16)>, Vec<TaskEnd>) {
    let out = s.tick(now);
    (
        out.writes.into_iter().map(|w| (w.actuator, w.value)).collect(),
        out.ended,
    )
}

#[test]
fn handles_are_fresh_and_increasing() {
    let mut s = Scheduler::new();
    let a = s.submit(ids(&["a"]), Task::Constant(Speed::max()), TkDuration::Infinite).unwrap();
    let b = s.submit(ids(&["b"]), Task::Constant(Speed::max()), TkDuration::Infinite).unwrap();
    assert_eq!(a, 0);
    assert_eq!(b, 1);
    assert_eq!(s.active_count(), 2);
}

#[test]
fn cancel_right_after_submit_writes_zero_to_all_targets() {
    let mut s = Scheduler::new();
    let h = s
        .submit(ids(&["A", "B"]), Task::Constant(Speed::max()), TkDuration::Infinite)
        .unwrap();
    assert!(s.cancel(h));
    let (writes, ended) = writes_of(&mut s, 0);
    assert_eq!(writes, vec![(String::from("A"), 0), (String::from("B"), 0)]);
    assert_eq!(ended, vec![TaskEnd { handle: h, cancelled: true }]);
    assert_eq!(s.active_count(), 0);
    let (writes, ended) = writes_of(&mut s, 10);
    assert!(writes.is_empty());
    assert!(ended.is_empty());
}

#[test]
fn cancel_twice_is_harmless() {
    let mut s = Scheduler::new();
    let h = s.submit(ids(&["A"]), Task::Constant(Speed::max()), TkDuration::Infinite).unwrap();
    assert!(s.cancel(h));
    assert!(s.cancel(h));
    let _ = s.tick(0);
    assert!(!s.cancel(h));
}

#[test]
fn cancel_unknown_handle_changes_nothing() {
    let mut s = Scheduler::new();
    let h = s
        .submit(ids(&["A"]), Task::Constant(Speed::new(30)), TkDuration::Infinite)
        .unwrap();
    assert!(!s.cancel(h + 7));
    assert!(!s.cancel(-1));
    let (writes, ended) = writes_of(&mut s, 0);
    assert_eq!(writes, vec![(String::from("A"), 30)]);
    assert!(ended.is_empty());
    assert_eq!(s.active_count(), 1);
}

#[test]
fn timed_task_stops_at_its_deadline() {
    let mut s = Scheduler::new();
    let h = s
        .submit(ids(&["A"]), Task::Constant(Speed::new(60)), TkDuration::Timed(100))
        .unwrap();
    let (w0, _) = writes_of(&mut s, 1000);
    assert_eq!(w0, vec![(String::from("A"), 60)]);
    let (w1, e1) = writes_of(&mut s, 1050);
    assert_eq!(w1, vec![(String::from("A"), 60)]);
    assert!(e1.is_empty());
    let (w2, e2) = writes_of(&mut s, 1120);
    assert_eq!(w2, vec![(String::from("A"), 0)]);
    assert_eq!(e2, vec![TaskEnd { handle: h, cancelled: false }]);
    let (w3, _) = writes_of(&mut s, 1200);
    assert!(w3.is_empty());
}

#[test]
fn cancel_all_stops_every_task_once() {
    let mut s = Scheduler::new();
    let a = s.submit(ids(&["A", "B"]), Task::Constant(Speed::max()), TkDuration::Infinite).unwrap();
    let b = s.submit(ids(&["B"]), Task::Constant(Speed::new(20)), TkDuration::Timed(5000)).unwrap();
    let c = s.submit(ids(&["C"]), Task::Constant(Speed::new(70)), TkDuration::Infinite).unwrap();
    let _ = s.tick(0);
    assert_eq!(s.cancel_all(), 3);
    let (writes, ended) = writes_of(&mut s, 10);
    assert_eq!(
        writes,
        vec![
            (String::from("A"), 0),
            (String::from("B"), 0),
            (String::from("B"), 0),
            (String::from("C"), 0)
        ]
    );
    assert_eq!(
        ended,
        vec![
            TaskEnd { handle: a, cancelled: true },
            TaskEnd { handle: b, cancelled: true },
            TaskEnd { handle: c, cancelled: true }
        ]
    );
    assert_eq!(s.active_count(), 0);
}

#[test]
fn pattern_task_follows_pattern() {
    let p = Pattern::new(&vec![
        PatternPoint { at: 0, value: 0 },
        PatternPoint { at: 100, value: 100 },
    ])
    .unwrap();
    let mut s = Scheduler::new();
    s.submit(ids(&["A"]), Task::Pattern(p), TkDuration::Infinite).unwrap();
    assert_eq!(writes_of(&mut s, 500).0, vec![(String::from("A"), 0)]);
    assert_eq!(writes_of(&mut s, 540).0, vec![(String::from("A"), 40)]);
    assert_eq!(writes_of(&mut s, 630).0, vec![(String::from("A"), 30)]);
}
