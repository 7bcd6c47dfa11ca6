use tls_flood::state::{Outcome, SharedState, Verdict, DEFAULT_LIMIT};
use tls_flood::text::contains_text;
use tls_flood::worker::{classify_failure, continues_after, is_success_status, outcomes_of_attempt, Attempt};

/// Admits as the Dispatcher would over a number of polling rounds.
fn dispatch(s: &mut SharedState, rounds: usize) -> usize {
    let mut launched = 0;
    for _ in 0..rounds {
        if s.try_admit() {
            launched += 1;
        }
    }
    launched
}

#[test]
fn exhaustion_lowers_limit_by_count() {
    let mut s = SharedState::new(10);
    assert_eq!(dispatch(&mut s, 100), 9);
    for _ in 0..3 {
        assert_eq!(s.absorb(Outcome::ResourceExhausted), Verdict::KeepRunning);
    }
    assert_eq!(s.limit(), 7);
    assert_eq!(s.in_flight(), 6);
}

#[test]
fn in_flight_is_spawned_minus_released() {
    let mut s = SharedState::new(6);
    let spawned = dispatch(&mut s, 10);
    assert_eq!(spawned, 5);
    s.absorb(Outcome::TransientFailure);
    s.absorb(Outcome::Accepted);
    s.absorb(Outcome::ResourceExhausted);
    assert_eq!(s.in_flight(), 3);
    assert_eq!(s.error_count(), 1);
    assert_eq!(s.success_count(), 1);
    assert_eq!(s.limit(), 5);
}

#[test]
fn dispatcher_stays_below_limit() {
    for limit in [1i64, 2, 3, 5, 17] {
        let mut s = SharedState::new(limit);
        dispatch(&mut s, 100);
        assert!((s.in_flight() as i64) <= limit - 1);
        if limit >= 2 {
            assert_eq!(s.in_flight() as i64, limit - 1);
        }
    }
}

#[test]
fn always_ok_server_stabilizes_at_limit_minus_one() {
    let mut s = SharedState::new(5);
    for _ in 0..50 {
        if s.try_admit() {
            let os = outcomes_of_attempt(&Attempt::Responded(200), false);
            for o in &os {
                assert_eq!(s.absorb(*o), Verdict::KeepRunning);
            }
            assert!(continues_after(&os));
        }
    }
    assert!(s.success_count() >= 1);
    assert_eq!(s.error_count(), 0);
    assert_eq!(s.in_flight(), 4);
}

#[test]
fn stop_on_success_finishes_after_target_satisfied() {
    let mut s = SharedState::new(5);
    dispatch(&mut s, 3);
    let os = outcomes_of_attempt(&Attempt::Responded(200), true);
    assert_eq!(os, vec![Outcome::Accepted, Outcome::TargetSatisfied]);
    assert!(!continues_after(&os));
    assert_eq!(s.absorb(os[0]), Verdict::KeepRunning);
    assert_eq!(s.absorb(os[1]), Verdict::Finish);
    assert_eq!(s.success_count(), 2);
    assert_eq!(s.in_flight(), 3);
}

#[test]
fn exhausting_server_shuts_admission() {
    let mut s = SharedState::new(5);
    let failure = Attempt::Failed("error sending request: socket: too many open files".to_string());
    for _ in 0..100 {
        s.try_admit();
        while s.in_flight() > 0 {
            let os = outcomes_of_attempt(&failure, false);
            assert_eq!(os, vec![Outcome::ResourceExhausted]);
            s.absorb(os[0]);
        }
    }
    assert_eq!(s.in_flight(), 0);
    assert!(s.limit() <= 1);
    assert!(!s.try_admit());
    assert_eq!(s.in_flight(), 0);
}

#[test]
fn new_state_starts_at_zero() {
    let s = SharedState::new(DEFAULT_LIMIT);
    assert_eq!(s.in_flight(), 0);
    assert_eq!(s.limit(), 17266166315252);
    assert_eq!(s.success_count(), 0);
    assert_eq!(s.error_count(), 0);
}

#[test]
fn limit_of_one_admits_nothing() {
    let mut s = SharedState::new(1);
    assert!(!s.try_admit());
    let mut z = SharedState::new(0);
    assert!(!z.try_admit());
}

#[test]
fn target_satisfied_twice_is_tolerated() {
    let mut s = SharedState::new(3);
    assert_eq!(s.absorb(Outcome::TargetSatisfied), Verdict::Finish);
    assert_eq!(s.absorb(Outcome::TargetSatisfied), Verdict::Finish);
    assert_eq!(s.success_count(), 2);
}

#[test]
fn failures_are_classified_by_text() {
    assert_eq!(classify_failure("dial tcp: socket: too many open files"), Outcome::ResourceExhausted);
    assert_eq!(classify_failure("connection refused"), Outcome::TransientFailure);
    assert_eq!(classify_failure(""), Outcome::TransientFailure);
    assert!(contains_text("x socket: too many open files", "socket"));
}

#[test]
fn responses_without_stop_only_accept() {
    assert_eq!(outcomes_of_attempt(&Attempt::Responded(200), false), vec![Outcome::Accepted]);
    assert_eq!(outcomes_of_attempt(&Attempt::Responded(503), true), vec![Outcome::Accepted]);
    assert_eq!(outcomes_of_attempt(&Attempt::Responded(299), true).len(), 2);
    assert_eq!(
        outcomes_of_attempt(&Attempt::Failed("timeout".to_string()), true),
        vec![Outcome::TransientFailure]
    );
}

#[test]
fn success_status_class() {
    assert!(is_success_status(200));
    assert!(is_success_status(204));
    assert!(!is_success_status(199));
    assert!(!is_success_status(300));
    assert!(!is_success_status(404));
}

#[test]
fn frees_slot_only_for_failures() {
    assert!(Outcome::TransientFailure.frees_slot());
    assert!(Outcome::ResourceExhausted.frees_slot());
    assert!(!Outcome::Accepted.frees_slot());
    assert!(!Outcome::TargetSatisfied.frees_slot());
}

#[test]
fn mixed_run_lowers_limit_by_exhaustions_only() {
    let mut s = SharedState::new(20);
    dispatch(&mut s, 30);
    let run = [
        Outcome::ResourceExhausted,
        Outcome::Accepted,
        Outcome::TransientFailure,
        Outcome::ResourceExhausted,
        Outcome::Accepted,
        Outcome::ResourceExhausted,
    ];
    for o in run {
        s.absorb(o);
    }
    assert_eq!(s.limit(), 17);
    assert_eq!(s.in_flight(), 19 - 4);
}
