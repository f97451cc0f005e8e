use upstream::signals::{Signal, SignalAction, SignalHandlers, GRACE_PERIOD};

const SECOND: u128 = 1_000_000_000;

fn handle(signals: &[Signal]) -> Vec<Option<SignalAction>> {
    let mut handlers = SignalHandlers::install_signal_handlers();
    signals.iter().map(|signal| handlers.receive(*signal)).collect()
}

#[test]
fn grace_period_is_five_seconds() {
    assert_eq!(GRACE_PERIOD, 5 * SECOND);
}

#[test]
fn hangup_restarts_every_time() {
    let actions = handle(&[Signal::Hangup, Signal::Hangup, Signal::Stop { now: 0 }, Signal::Hangup]);
    assert_eq!(
        actions,
        [
            Some(SignalAction::Restart),
            Some(SignalAction::Restart),
            Some(SignalAction::Shutdown),
            Some(SignalAction::Restart)
        ]
    );
}

#[test]
fn hangup_is_ignored_after_the_last_one() {
    let actions = handle(&[Signal::HangupsEnd, Signal::Hangup, Signal::Stop { now: 3 }]);
    assert_eq!(actions, [None, None, Some(SignalAction::Shutdown)]);
}

#[test]
fn second_stop_within_the_grace_period_does_nothing() {
    let start = 7 * SECOND;
    let actions = handle(&[
        Signal::Stop { now: start },
        Signal::Stop { now: start },
        Signal::Stop { now: start + GRACE_PERIOD },
    ]);
    assert_eq!(actions, [Some(SignalAction::Shutdown), None, None]);
}

#[test]
fn stop_after_the_grace_period_exits() {
    let start = 7 * SECOND;
    let actions =
        handle(&[Signal::Stop { now: start }, Signal::Stop { now: start + GRACE_PERIOD + 1 }]);
    assert_eq!(actions, [Some(SignalAction::Shutdown), Some(SignalAction::Exit { code: 5 })]);
}

#[test]
fn reminders_do_not_extend_the_grace_period() {
    let actions = handle(&[
        Signal::Stop { now: 0 },
        Signal::Stop { now: 4 * SECOND },
        Signal::Hangup,
        Signal::Stop { now: 6 * SECOND },
    ]);
    assert_eq!(
        actions,
        [
            Some(SignalAction::Shutdown),
            None,
            Some(SignalAction::Restart),
            Some(SignalAction::Exit { code: 5 })
        ]
    );
}

#[test]
fn clock_that_goes_backwards_does_not_exit() {
    let actions = handle(&[Signal::Stop { now: 10 * SECOND }, Signal::Stop { now: 0 }]);
    assert_eq!(actions, [Some(SignalAction::Shutdown), None]);
}
