use delivery_load::poller::{
    replay, Diagnostic, PollVerdict, Poller, MISS_STREAK_THRESHOLD, POLL_INTERVAL_MS,
};

#[test]
fn poller_constants() {
    assert_eq!(POLL_INTERVAL_MS, 250);
    assert_eq!(MISS_STREAK_THRESHOLD, 6);
}

#[test]
fn six_misses_then_full_count_gives_one_diagnostic() {
    let readings = vec![Some(0), Some(1), Some(2), Some(3), Some(3), Some(4), Some(5)];
    let trace = replay(5, &readings);
    assert!(trace.completed);
    assert_eq!(trace.polls, 7);
    assert_eq!(trace.diagnostics, vec![Diagnostic { expected: 5, observed: 4, streak: 6 }]);
}

#[test]
fn five_misses_give_no_diagnostic() {
    let readings = vec![Some(0), Some(0), Some(0), Some(0), Some(0), Some(400)];
    let trace = replay(400, &readings);
    assert!(trace.completed);
    assert_eq!(trace.polls, 6);
    assert!(trace.diagnostics.is_empty());
}

#[test]
fn every_miss_from_the_sixth_on_is_reported() {
    let readings = vec![None, None, None, None, None, Some(7), Some(8), Some(9)];
    let trace = replay(400, &readings);
    assert!(!trace.completed);
    assert_eq!(trace.polls, 8);
    assert_eq!(
        trace.diagnostics,
        vec![
            Diagnostic { expected: 400, observed: 7, streak: 6 },
            Diagnostic { expected: 400, observed: 8, streak: 7 },
            Diagnostic { expected: 400, observed: 9, streak: 8 },
        ]
    );
}

#[test]
fn replay_stops_at_the_first_complete_reading() {
    let readings = vec![Some(1), Some(3), Some(0), Some(3)];
    let trace = replay(3, &readings);
    assert!(trace.completed);
    assert_eq!(trace.polls, 2);
    assert!(trace.diagnostics.is_empty());
}

#[test]
fn replay_of_nothing_takes_no_reading() {
    let trace = replay(1, &Vec::new());
    assert!(!trace.completed);
    assert_eq!(trace.polls, 0);
    assert!(trace.diagnostics.is_empty());
}

#[test]
fn missing_key_counts_as_zero() {
    let mut poller = Poller::new(1);
    assert_eq!(poller.observe(None), PollVerdict::Pending);
    assert_eq!(poller.missed, 1);
    let mut empty = Poller::new(0);
    assert_eq!(empty.observe(None), PollVerdict::Complete);
    assert_eq!(empty.missed, 0);
}

#[test]
fn count_above_the_total_completes() {
    let mut poller = Poller::new(400);
    assert_eq!(poller.observe(Some(399)), PollVerdict::Pending);
    assert_eq!(poller.observe(Some(437)), PollVerdict::Complete);
    assert_eq!(poller.observe(Some(400)), PollVerdict::Complete);
    assert_eq!(poller.observe(Some(u64::MAX)), PollVerdict::Complete);
    assert_eq!(poller.missed, 1);
    assert_eq!(poller.expected, 400);
}

#[test]
fn sixth_miss_is_the_first_reported() {
    let mut poller = Poller::new(10);
    for streak in 1..=5u64 {
        assert_eq!(poller.observe(Some(streak)), PollVerdict::Pending);
        assert_eq!(poller.missed, streak);
    }
    assert_eq!(
        poller.observe(Some(9)),
        PollVerdict::Lagging(Diagnostic { expected: 10, observed: 9, streak: 6 })
    );
    assert_eq!(
        poller.observe(None),
        PollVerdict::Lagging(Diagnostic { expected: 10, observed: 0, streak: 7 })
    );
    assert_eq!(poller.observe(Some(10)), PollVerdict::Complete);
}

#[test]
fn streak_stops_growing_at_the_largest_value() {
    let mut poller = Poller { expected: 1, missed: u64::MAX };
    assert_eq!(
        poller.observe(Some(0)),
        PollVerdict::Lagging(Diagnostic { expected: 1, observed: 0, streak: u64::MAX })
    );
    assert_eq!(poller.missed, u64::MAX);
}
