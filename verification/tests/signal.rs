use progress_tracker::signal::StopSignal;

#[test]
fn signal_starts_lowered_and_stays_raised() {
    let signal = StopSignal::new();
    assert!(!signal.is_stopped());
    assert!(!signal.is_stopped());
    signal.stop();
    assert!(signal.is_stopped());
    signal.stop();
    assert!(signal.is_stopped());
}

#[test]
fn two_signals_are_independent() {
    let first = StopSignal::new();
    let second = StopSignal::new();
    first.stop();
    assert!(first.is_stopped());
    assert!(!second.is_stopped());
}

#[test]
fn signal_is_heeded_through_a_shared_reference() {
    let signal = StopSignal::new();
    let heeded_by = |signal: &StopSignal| {
        let mut rounds = 0;
        while !signal.is_stopped() {
            rounds += 1;
            if rounds == 3 {
                signal.stop();
            }
        }
        rounds
    };
    assert_eq!(heeded_by(&signal), 3);
    assert_eq!(heeded_by(&signal), 0);
}
