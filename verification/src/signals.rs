//! What the signals that the process receives do.
use vstd::prelude::*;

verus! {

/// How long after the first request to stop a further one is only a reminder, in nanoseconds.
pub const GRACE_PERIOD: u128 = 5_000_000_000;

/// The exit code of a process that is forced to stop.
pub const FORCED_EXIT_CODE: i32 = 5;

/// What the process is told.
#[derive(Clone, Copy, Debug, PartialEq, Eq, Structural)]
pub enum Signal {
    /// `SIGHUP` was received.
    Hangup,
    /// There will be no further `SIGHUP`.
    HangupsEnd,
    /// `SIGTERM` or `SIGINT` was received, at a time of a clock that counts nanoseconds.
    Stop { now: u128 },
}

/// What the process does when it is told something.
#[derive(Clone, Copy, Debug, PartialEq, Eq, Structural)]
pub enum SignalAction {
    /// Restart the service.
    Restart,
    /// Ask the service to shut down.
    Shutdown,
    /// Exit immediately.
    Exit { code: i32 },
}

/// The handlers of the signals.
#[derive(Clone, Copy, Debug, PartialEq, Eq, Structural)]
pub struct SignalHandlers {
    /// Whether the handler of `SIGHUP` is still running.
    pub restarting: bool,
    /// When the service was asked to shut down, once it was.
    pub stopping_since: Option<u128>,
}

/// The handlers right after they have been installed.
pub open spec fn installed() -> SignalHandlers {
    SignalHandlers { restarting: true, stopping_since: None }
}

/// How much time has passed since `since`; a clock that went backwards counts as none.
pub open spec fn elapsed(since: u128, now: u128) -> int {
    if now >= since {
        now - since
    } else {
        0
    }
}

/// What the handlers do when they are told something.
pub open spec fn response(handlers: SignalHandlers, signal: Signal) -> Option<SignalAction> {
    match signal {
        Signal::Hangup => if handlers.restarting {
            Some(SignalAction::Restart)
        } else {
            None
        },
        Signal::HangupsEnd => None,
        Signal::Stop { now } => match handlers.stopping_since {
            None => Some(SignalAction::Shutdown),
            Some(since) => if elapsed(since, now) > GRACE_PERIOD {
                Some(SignalAction::Exit { code: FORCED_EXIT_CODE })
            } else {
                None
            },
        },
    }
}

/// The handlers after they have been told something.
pub open spec fn told(handlers: SignalHandlers, signal: Signal) -> SignalHandlers {
    match signal {
        Signal::Hangup => handlers,
        Signal::HangupsEnd => SignalHandlers { restarting: false, ..handlers },
        Signal::Stop { now } => if handlers.stopping_since is None {
            SignalHandlers { stopping_since: Some(now), ..handlers }
        } else {
            handlers
        },
    }
}

impl SignalHandlers {
    /// Installs the handlers.
    pub fn install_signal_handlers() -> (handlers: SignalHandlers)
        ensures
            handlers == installed(),
    {
        SignalHandlers { restarting: true, stopping_since: None }
    }

    /// Handles what the process is told.
    pub fn receive(&mut self, signal: Signal) -> (action: Option<SignalAction>)
        ensures
            *final(self) == told(*old(self), signal),
            action == response(*old(self), signal),
    {
        match signal {
            Signal::Hangup => {
                if self.restarting {
                    Some(SignalAction::Restart)
                } else {
                    None
                }
            },
            Signal::HangupsEnd => {
                self.restarting = false;
                None
            },
            Signal::Stop { now } => match self.stopping_since {
                None => {
                    self.stopping_since = Some(now);
                    Some(SignalAction::Shutdown)
                },
                Some(since) => {
                    if now >= since && now - since > GRACE_PERIOD {
                        Some(SignalAction::Exit { code: FORCED_EXIT_CODE })
                    } else {
                        None
                    }
                },
            },
        }
    }
}

/// The handlers after everything that the process was told.
pub open spec fn after(history: Seq<Signal>) -> SignalHandlers
    decreases history.len(),
{
    if history.len() == 0 {
        installed()
    } else {
        told(after(history.drop_last()), history.last())
    }
}

/// What the handlers did at a position of the history.
pub open spec fn done(history: Seq<Signal>, at: int) -> Option<SignalAction> {
    response(after(history.take(at)), history[at])
}

/// Whether the process was asked to stop for the first time at a position of the history.
pub open spec fn first_stop(history: Seq<Signal>, at: int) -> bool {
    &&& 0 <= at < history.len()
    &&& history[at] is Stop
    &&& forall|i: int| 0 <= i < at ==> !(#[trigger] history[i] is Stop)
}

/// What the handlers remember: the time of the first request to stop, and whether there can be
/// another `SIGHUP`.
proof fn lemma_remembered(history: Seq<Signal>)
    ensures
        after(history).stopping_since is None <==> forall|i: int|
            0 <= i < history.len() ==> !(#[trigger] history[i] is Stop),
        forall|at: int|
            #[trigger] first_stop(history, at) ==> after(history).stopping_since == Some(
                history[at]->now,
            ),
        after(history).restarting <==> forall|i: int|
            0 <= i < history.len() ==> #[trigger] history[i] != Signal::HangupsEnd,
    decreases history.len(),
{
    if history.len() > 0 {
        let before = history.drop_last();
        let last = history.len() - 1;
        lemma_remembered(before);
        if after(history).stopping_since is None {
            assert forall|i: int| 0 <= i < history.len() implies !(#[trigger] history[i] is Stop) by {
                if i < last {
                    assert(!(before[i] is Stop));
                }
            }
        } else if after(before).stopping_since is None {
            assert(history[last] is Stop);
        } else {
            let i = choose|i: int| 0 <= i < before.len() && #[trigger] before[i] is Stop;
            assert(history[i] is Stop);
        }
        assert forall|at: int| #[trigger] first_stop(history, at) implies after(
            history,
        ).stopping_since == Some(history[at]->now) by {
            if at < last {
                assert(before[at] == history[at]);
                assert(first_stop(before, at));
            } else {
                assert forall|i: int| 0 <= i < before.len() implies !(#[trigger] before[i] is Stop) by {
                    assert(!(history[i] is Stop));
                }
            }
        }
        if after(history).restarting {
            assert forall|i: int| 0 <= i < history.len() implies #[trigger] history[i]
                != Signal::HangupsEnd by {
                if i < last {
                    assert(before[i] != Signal::HangupsEnd);
                }
            }
        } else if !after(before).restarting {
            let i = choose|i: int|
                0 <= i < before.len() && #[trigger] before[i] == Signal::HangupsEnd;
            assert(history[i] == Signal::HangupsEnd);
        } else {
            assert(history[last] == Signal::HangupsEnd);
        }
    }
}

/// On `SIGHUP`, and on nothing else, the service is restarted, also while it shuts down.
pub proof fn law_hangup_restarts(history: Seq<Signal>, at: int)
    requires
        0 <= at < history.len(),
    ensures
        done(history, at) == Some(SignalAction::Restart) <==> history[at] == Signal::Hangup && forall|
            i: int,
        |
            0 <= i < at ==> #[trigger] history[i] != Signal::HangupsEnd,
{
    let before = history.take(at);
    lemma_remembered(before);
    if exists|i: int| 0 <= i < at && #[trigger] history[i] == Signal::HangupsEnd {
        let i = choose|i: int| 0 <= i < at && #[trigger] history[i] == Signal::HangupsEnd;
        assert(before[i] == Signal::HangupsEnd);
    }
}

/// On the first `SIGTERM` or `SIGINT`, and on nothing else, the service is asked to shut down.
pub proof fn law_first_stop_shuts_down(history: Seq<Signal>, at: int)
    requires
        0 <= at < history.len(),
    ensures
        done(history, at) == Some(SignalAction::Shutdown) <==> first_stop(history, at),
{
    let before = history.take(at);
    lemma_remembered(before);
    if first_stop(history, at) {
        assert forall|i: int| 0 <= i < before.len() implies !(#[trigger] before[i] is Stop) by {
            assert(!(history[i] is Stop));
        }
    }
    if done(history, at) == Some(SignalAction::Shutdown) {
        assert forall|i: int| 0 <= i < at implies !(#[trigger] history[i] is Stop) by {
            assert(!(before[i] is Stop));
        }
    }
}

/// The process is exited on `SIGTERM` or `SIGINT` if one was received more than the grace period
/// before, counted from the first one, and on nothing else. Reminders in between do not extend
/// the grace period.
pub proof fn law_late_stop_exits(history: Seq<Signal>, first: int, at: int)
    requires
        first_stop(history, first),
        first < at < history.len(),
    ensures
        done(history, at) == Some(SignalAction::Exit { code: FORCED_EXIT_CODE }) <==> history[at] is Stop
            && history[at]->now - history[first]->now > GRACE_PERIOD,
{
    let before = history.take(at);
    lemma_remembered(before);
    assert(first_stop(before, first));
    assert(before[first] is Stop);
}

/// The process is not exited before it was asked to stop a second time.
pub proof fn law_no_exit_before_shutdown(history: Seq<Signal>, at: int)
    requires
        0 <= at < history.len(),
        done(history, at) is Some,
        done(history, at)->0 is Exit,
    ensures
        exists|first: int| first < at && #[trigger] first_stop(history, first),
{
    let before = history.take(at);
    lemma_remembered(before);
    let i = choose|i: int| 0 <= i < before.len() && #[trigger] before[i] is Stop;
    lemma_some_first_stop(before, i);
    let first = choose|first: int| #[trigger] first_stop(before, first);
    assert forall|j: int| 0 <= j < first implies !(#[trigger] history[j] is Stop) by {
        assert(before[j] == history[j]);
    }
    assert(first_stop(history, first));
}

/// If the process is asked to stop, it is asked for the first time at some position.
proof fn lemma_some_first_stop(history: Seq<Signal>, at: int)
    requires
        0 <= at < history.len(),
        history[at] is Stop,
    ensures
        exists|first: int| #[trigger] first_stop(history, first),
    decreases at,
{
    if exists|i: int| 0 <= i < at && #[trigger] history[i] is Stop {
        let i = choose|i: int| 0 <= i < at && #[trigger] history[i] is Stop;
        lemma_some_first_stop(history, i);
    } else {
        assert(first_stop(history, at));
    }
}

/// In every history the process is exited, with whatever code, exactly on a `SIGTERM` or `SIGINT`
/// that comes more than five seconds after the first one, and then with the code 5.
pub proof fn law_exit_needs_late_stop(history: Seq<Signal>, at: int)
    requires
        0 <= at < history.len(),
    ensures
        ({
            let action = done(history, at);
            &&& action is Some && action->0 is Exit <==> history[at] is Stop && exists|first: int|
                first < at && #[trigger] first_stop(history, first) && history[at]->now
                    - history[first]->now > 5_000_000_000
            &&& action is Some && action->0 is Exit ==> action->0->code == 5
        }),
{
    let action = done(history, at);
    if action is Some && action->0 is Exit {
        law_no_exit_before_shutdown(history, at);
        let first = choose|first: int| first < at && #[trigger] first_stop(history, first);
        law_late_stop_exits(history, first, at);
        let before = history.take(at);
        lemma_remembered(before);
        assert(first_stop(before, first));
        assert(history[at]->now - history[first]->now > 5_000_000_000);
    }
    if exists|first: int|
        first < at && #[trigger] first_stop(history, first) && history[at]->now
            - history[first]->now > 5_000_000_000 {
        let first = choose|first: int|
            first < at && #[trigger] first_stop(history, first) && history[at]->now
                - history[first]->now > 5_000_000_000;
        law_late_stop_exits(history, first, at);
    }
}

/// A `SIGTERM` or `SIGINT` that comes at most five seconds after the first one does nothing: the
/// shutdown goes on.
pub proof fn law_early_stop_does_nothing(history: Seq<Signal>, first: int, at: int)
    requires
        first_stop(history, first),
        first < at < history.len(),
        history[at] is Stop,
        history[at]->now - history[first]->now <= 5_000_000_000,
    ensures
        done(history, at) is None,
{
    let before = history.take(at);
    lemma_remembered(before);
    assert(first_stop(before, first));
    assert(before[first] is Stop);
}

/// What is done on one signal has nothing to do with the other one: a `SIGHUP` restarts the service
/// or does nothing, its end does nothing, and `SIGTERM` and `SIGINT` never restart it.
pub proof fn law_signals_are_independent(history: Seq<Signal>, at: int)
    requires
        0 <= at < history.len(),
    ensures
        match history[at] {
            Signal::Hangup => done(history, at) is None || done(history, at) == Some(
                SignalAction::Restart,
            ),
            Signal::HangupsEnd => done(history, at) is None,
            Signal::Stop { .. } => done(history, at) != Some(SignalAction::Restart),
        },
{
}

/// From every state: `SIGHUP` restarts as long as its handler runs and changes nothing; the end of
/// `SIGHUP` only ends that handler; the first request to stop shuts down and only its time is
/// remembered; a further one changes nothing, and exits with the code 5 if more than five seconds
/// have passed since, and otherwise does nothing, also if the clock went backwards.
pub proof fn law_state_of_handlers(handlers: SignalHandlers, now: u128)
    ensures
        installed().restarting && installed().stopping_since is None,
        told(handlers, Signal::Hangup) == handlers,
        response(handlers, Signal::Hangup) == if handlers.restarting {
            Some(SignalAction::Restart)
        } else {
            None
        },
        !told(handlers, Signal::HangupsEnd).restarting,
        told(handlers, Signal::HangupsEnd).stopping_since == handlers.stopping_since,
        response(handlers, Signal::HangupsEnd) is None,
        told(handlers, Signal::Stop { now }).restarting == handlers.restarting,
        match handlers.stopping_since {
            None => {
                &&& told(handlers, Signal::Stop { now }).stopping_since == Some(now)
                &&& response(handlers, Signal::Stop { now }) == Some(SignalAction::Shutdown)
            },
            Some(since) => {
                &&& told(handlers, Signal::Stop { now }).stopping_since == Some(since)
                &&& now > since + 5_000_000_000 ==> response(handlers, Signal::Stop { now })
                    == Some(SignalAction::Exit { code: 5 })
                &&& now <= since + 5_000_000_000 ==> response(
                    handlers,
                    Signal::Stop { now },
                ) is None
            },
        },
{
}

} // verus!
