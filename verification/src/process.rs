//! Running the proxy process.
//!
//! [`run`] starts the process and [`Run::next`] goes on with it: they say what is to be done, and
//! are told how it went.
use crate::text::{copy_texts, Text};
use radicle_keystore::pinentry::SecUtf8;
use std::sync::Arc;
use vstd::prelude::*;

verus! {

/// Text that is kept out of logs and wiped from memory after use.
#[verifier::external_type_specification]
#[verifier::external_body]
pub struct ExSecUtf8(SecUtf8);

/// The text that is kept secret.
pub uninterp spec fn secret_text(secret: SecUtf8) -> Seq<char>;

/// Keeps a text secret, with `SecUtf8::from`.
///
/// Trusted: it is this text that is kept.
#[verifier::external_body]
fn keep_secret(text: String) -> (secret: SecUtf8)
    ensures
        secret_text(secret) == text@,
{
    SecUtf8::from(text)
}

/// The arguments of the process, where `A` is the type of a network address.
#[derive(Debug)]
pub struct Args<A> {
    /// Run with a temporary environment.
    pub test: bool,
    /// Use a keystore that is fast and not safe.
    pub unsafe_fast_keystore: bool,
    /// Where the identity key is, unless it is in the default place.
    pub identity_key: Option<String>,
    /// The passphrase to unseal the keystore with at the start.
    pub key_passphrase: Option<String>,
    /// Do not ask for a token in the HTTP API.
    pub insecure_http_api: bool,
    /// The seeds of a new session.
    pub default_seeds: Vec<String>,
    /// The seeds to use in place of the configured ones.
    pub seeds: Option<Vec<String>>,
    /// Where the HTTP API listens.
    pub http_listen: A,
    /// Where the peer listens.
    pub peer_listen: A,
    /// Log for developers.
    pub dev_log: bool,
}

/// The mathematical value of [`Args`].
pub struct ArgsView<A> {
    pub test: bool,
    pub unsafe_fast_keystore: bool,
    pub identity_key: Option<Text>,
    pub key_passphrase: Option<Text>,
    pub insecure_http_api: bool,
    pub default_seeds: Seq<Text>,
    pub seeds: Option<Seq<Text>>,
    pub http_listen: A,
    pub peer_listen: A,
    pub dev_log: bool,
}

impl<A> View for Args<A> {
    type V = ArgsView<A>;

    open spec fn view(&self) -> ArgsView<A> {
        ArgsView {
            test: self.test,
            unsafe_fast_keystore: self.unsafe_fast_keystore,
            identity_key: self.identity_key.deep_view(),
            key_passphrase: self.key_passphrase.deep_view(),
            insecure_http_api: self.insecure_http_api,
            default_seeds: self.default_seeds.deep_view(),
            seeds: self.seeds.deep_view(),
            http_listen: self.http_listen,
            peer_listen: self.peer_listen,
            dev_log: self.dev_log,
        }
    }
}

impl<A: Copy> Clone for Args<A> {
    fn clone(&self) -> (copy: Self)
        ensures
            copy@ == self@,
    {
        let seeds = match &self.seeds {
            Some(seeds) => Some(copy_texts(seeds)),
            None => None,
        };
        Args {
            test: self.test,
            unsafe_fast_keystore: self.unsafe_fast_keystore,
            identity_key: self.identity_key.clone(),
            key_passphrase: self.key_passphrase.clone(),
            insecure_http_api: self.insecure_http_api,
            default_seeds: copy_texts(&self.default_seeds),
            seeds,
            http_listen: self.http_listen,
            peer_listen: self.peer_listen,
            dev_log: self.dev_log,
        }
    }
}

/// What the service manager is made from.
#[derive(Debug)]
pub struct EnvironmentConfig {
    pub test_mode: bool,
    pub unsafe_fast_keystore: bool,
    pub identity_key: Option<String>,
}

/// The mathematical value of an [`EnvironmentConfig`].
pub struct EnvironmentConfigView {
    pub test_mode: bool,
    pub unsafe_fast_keystore: bool,
    pub identity_key: Option<Text>,
}

impl View for EnvironmentConfig {
    type V = EnvironmentConfigView;

    open spec fn view(&self) -> EnvironmentConfigView {
        EnvironmentConfigView {
            test_mode: self.test_mode,
            unsafe_fast_keystore: self.unsafe_fast_keystore,
            identity_key: self.identity_key.deep_view(),
        }
    }
}

/// What is to be done. `S` is what a session is notified and controlled by, `V` is the environment
/// that it runs in, and `T` is the cell that holds the token of the HTTP API.
#[derive(Debug)]
pub enum RunAction<A, S, V, T> {
    /// Set up logging.
    SetUpLogging { dev_log: bool },
    /// Make the service manager.
    CreateManager { config: EnvironmentConfig },
    /// Unseal the keystore.
    UnsealKeystore { passphrase: SecUtf8 },
    /// Install the signal handlers.
    InstallSignalHandlers,
    /// Make the cell that holds the token of the HTTP API, with what it holds at first.
    MakeTokenCell { token: Option<String> },
    /// Prepare to be notified of a restart, and take a handle of the service.
    Subscribe,
    /// Ask the service manager for the environment.
    LoadEnvironment,
    /// Run a session until it ends.
    RunSession { subscription: S, environment: V, auth_token: Arc<T>, args: Args<A> },
}

/// The mathematical value of a [`RunAction`].
pub enum RunActionView<A, S, V, T> {
    SetUpLogging { dev_log: bool },
    CreateManager { config: EnvironmentConfigView },
    UnsealKeystore { passphrase: Text },
    InstallSignalHandlers,
    MakeTokenCell { token: Option<Text> },
    Subscribe,
    LoadEnvironment,
    RunSession { subscription: S, environment: V, auth_token: T, args: ArgsView<A> },
}

impl<A, S, V, T> View for RunAction<A, S, V, T> {
    type V = RunActionView<A, S, V, T>;

    open spec fn view(&self) -> RunActionView<A, S, V, T> {
        match self {
            RunAction::SetUpLogging { dev_log } => RunActionView::SetUpLogging {
                dev_log: *dev_log,
            },
            RunAction::CreateManager { config } => RunActionView::CreateManager { config: config@ },
            RunAction::UnsealKeystore { passphrase } => RunActionView::UnsealKeystore {
                passphrase: secret_text(*passphrase),
            },
            RunAction::InstallSignalHandlers => RunActionView::InstallSignalHandlers,
            RunAction::MakeTokenCell { token } => RunActionView::MakeTokenCell {
                token: token.deep_view(),
            },
            RunAction::Subscribe => RunActionView::Subscribe,
            RunAction::LoadEnvironment => RunActionView::LoadEnvironment,
            RunAction::RunSession { subscription, environment, auth_token, args } =>
            RunActionView::RunSession {
                subscription: *subscription,
                environment: *environment,
                auth_token: **auth_token,
                args: args@,
            },
        }
    }
}

/// How it went.
#[derive(Debug)]
pub enum RunEvent<S, V, T, E> {
    /// It is done.
    Done,
    /// The cell for the token is made.
    CellMade { cell: T },
    /// A session is prepared.
    Subscribed { subscription: S },
    /// There is an environment.
    Loaded { environment: V },
    /// There is no environment any more: the service has been shut down.
    ShutDown,
    /// It has failed.
    Failed(E),
}

/// What the process is doing.
#[derive(Debug)]
pub enum Stage<S, T> {
    /// Logging is set up.
    Logging,
    /// The service manager is made.
    Creating,
    /// The keystore is unsealed.
    Unsealing,
    /// The signal handlers are installed.
    Installing,
    /// The cell for the token is made.
    MakingCell,
    /// A session is prepared.
    Subscribing { cell: Arc<T> },
    /// The environment is loaded.
    Loading { cell: Arc<T>, subscription: S },
    /// A session runs.
    Session { cell: Arc<T> },
}

/// The mathematical value of a [`Stage`].
pub enum StageView<S, T> {
    Logging,
    Creating,
    Unsealing,
    Installing,
    MakingCell,
    Subscribing { cell: T },
    Loading { cell: T, subscription: S },
    Session { cell: T },
}

impl<S, T> View for Stage<S, T> {
    type V = StageView<S, T>;

    open spec fn view(&self) -> StageView<S, T> {
        match self {
            Stage::Logging => StageView::Logging,
            Stage::Creating => StageView::Creating,
            Stage::Unsealing => StageView::Unsealing,
            Stage::Installing => StageView::Installing,
            Stage::MakingCell => StageView::MakingCell,
            Stage::Subscribing { cell } => StageView::Subscribing { cell: **cell },
            Stage::Loading { cell, subscription } => StageView::Loading {
                cell: **cell,
                subscription: *subscription,
            },
            Stage::Session { cell } => StageView::Session { cell: **cell },
        }
    }
}

/// The process while something is done.
#[derive(Debug)]
pub struct Run<A, S, T> {
    args: Args<A>,
    unix: bool,
    stage: Stage<S, T>,
}

/// The mathematical value of a [`Run`].
pub struct RunView<A, S, T> {
    pub args: ArgsView<A>,
    /// Whether signal handlers are installed.
    pub unix: bool,
    pub stage: StageView<S, T>,
}

impl<A, S, T> View for Run<A, S, T> {
    type V = RunView<A, S, T>;

    closed spec fn view(&self) -> RunView<A, S, T> {
        RunView { args: self.args@, unix: self.unix, stage: self.stage@ }
    }
}

/// What follows.
#[derive(Debug)]
pub enum RunStep<A, S, V, T, E> {
    /// Do something and tell how it went.
    Perform { run: Run<A, S, T>, action: RunAction<A, S, V, T> },
    /// The process has come to its end.
    Finished,
    /// The process has failed.
    Failed(E),
}

/// The mathematical value of a [`RunStep`].
pub enum RunStepView<A, S, V, T, E> {
    Perform { run: RunView<A, S, T>, action: RunActionView<A, S, V, T> },
    Finished,
    Failed(E),
}

impl<A, S, V, T, E> View for RunStep<A, S, V, T, E> {
    type V = RunStepView<A, S, V, T, E>;

    open spec fn view(&self) -> RunStepView<A, S, V, T, E> {
        match self {
            RunStep::Perform { run, action } => RunStepView::Perform { run: run@, action: action@ },
            RunStep::Finished => RunStepView::Finished,
            RunStep::Failed(error) => RunStepView::Failed(*error),
        }
    }
}

/// The configuration of the service manager.
pub open spec fn manager_config<A>(args: ArgsView<A>) -> EnvironmentConfigView {
    EnvironmentConfigView {
        test_mode: args.test,
        unsafe_fast_keystore: args.unsafe_fast_keystore,
        identity_key: args.identity_key,
    }
}

/// The step that does something at a stage.
pub open spec fn perform<A, S, V, T, E>(
    args: ArgsView<A>,
    unix: bool,
    stage: StageView<S, T>,
    action: RunActionView<A, S, V, T>,
) -> RunStepView<A, S, V, T, E> {
    RunStepView::Perform { run: RunView { args, unix, stage }, action }
}

/// The first step of the process.
pub open spec fn first_run_step<A, S, V, T, E>(args: ArgsView<A>, unix: bool) -> RunStepView<
    A,
    S,
    V,
    T,
    E,
> {
    perform(
        args,
        unix,
        StageView::Logging,
        RunActionView::SetUpLogging { dev_log: args.dev_log },
    )
}

/// The step that prepares a session.
pub open spec fn subscribing<A, S, V, T, E>(args: ArgsView<A>, unix: bool, cell: T) -> RunStepView<
    A,
    S,
    V,
    T,
    E,
> {
    perform(args, unix, StageView::Subscribing { cell }, RunActionView::Subscribe)
}

/// The step that makes the cell for the token, which holds none at first.
pub open spec fn making_cell<A, S, V, T, E>(args: ArgsView<A>, unix: bool) -> RunStepView<
    A,
    S,
    V,
    T,
    E,
> {
    perform(args, unix, StageView::MakingCell, RunActionView::MakeTokenCell { token: None })
}

/// The step that installs the signal handlers, which exist on Unix only, or else the one after it.
pub open spec fn installing<A, S, V, T, E>(args: ArgsView<A>, unix: bool) -> RunStepView<
    A,
    S,
    V,
    T,
    E,
> {
    if unix {
        perform(args, unix, StageView::Installing, RunActionView::InstallSignalHandlers)
    } else {
        making_cell(args, unix)
    }
}

/// The step after something was done that leaves nothing.
pub open spec fn done_step<A, S, V, T, E>(run: RunView<A, S, T>) -> RunStepView<A, S, V, T, E> {
    match run.stage {
        StageView::Logging => perform(
            run.args,
            run.unix,
            StageView::Creating,
            RunActionView::CreateManager { config: manager_config(run.args) },
        ),
        StageView::Creating => match run.args.key_passphrase {
            Some(passphrase) => perform(
                run.args,
                run.unix,
                StageView::Unsealing,
                RunActionView::UnsealKeystore { passphrase },
            ),
            None => installing(run.args, run.unix),
        },
        StageView::Unsealing => installing(run.args, run.unix),
        StageView::Session { cell } => subscribing(run.args, run.unix, cell),
        _ => making_cell(run.args, run.unix),
    }
}

/// Whether an event tells how the current action went. Only making the cell leaves one, only
/// preparing a session leaves a subscription, and only loading the environment leaves one or tells
/// that there is none.
pub open spec fn answers<S, V, T, E>(stage: StageView<S, T>, event: RunEvent<S, V, T, E>) -> bool {
    match event {
        RunEvent::Done => !(stage is MakingCell) && !(stage is Subscribing) && !(
        stage is Loading),
        RunEvent::CellMade { .. } => stage is MakingCell,
        RunEvent::Subscribed { .. } => stage is Subscribing,
        RunEvent::Loaded { .. } | RunEvent::ShutDown => stage is Loading,
        RunEvent::Failed(_) => true,
    }
}

/// The step after an event.
pub open spec fn next_run_step<A, S, V, T, E>(
    run: RunView<A, S, T>,
    event: RunEvent<S, V, T, E>,
) -> RunStepView<A, S, V, T, E>
    recommends
        answers(run.stage, event),
{
    match event {
        RunEvent::Done => done_step(run),
        RunEvent::CellMade { cell } => subscribing(run.args, run.unix, cell),
        RunEvent::Subscribed { subscription } => perform(
            run.args,
            run.unix,
            StageView::Loading { cell: run.stage->Subscribing_cell, subscription },
            RunActionView::LoadEnvironment,
        ),
        RunEvent::Loaded { environment } => perform(
            run.args,
            run.unix,
            StageView::Session { cell: run.stage->Loading_cell },
            RunActionView::RunSession {
                subscription: run.stage->subscription,
                environment,
                auth_token: run.stage->Loading_cell,
                args: run.args,
            },
        ),
        RunEvent::ShutDown => RunStepView::Finished,
        RunEvent::Failed(error) => RunStepView::Failed(error),
    }
}

/// Starts the process. Signal handlers are installed where `unix` holds.
pub fn run<A, S, V, T, E>(args: Args<A>, unix: bool) -> (step: RunStep<A, S, V, T, E>)
    ensures
        step@ == first_run_step::<A, S, V, T, E>(args@, unix),
{
    let dev_log = args.dev_log;
    RunStep::Perform {
        run: Run { args, unix, stage: Stage::Logging },
        action: RunAction::SetUpLogging { dev_log },
    }
}

impl<A: Copy, S, T> Run<A, S, T> {
    fn at<V, E>(self, stage: Stage<S, T>, action: RunAction<A, S, V, T>) -> (step: RunStep<
        A,
        S,
        V,
        T,
        E,
    >)
        ensures
            step@ == perform::<A, S, V, T, E>(self@.args, self@.unix, stage@, action@),
    {
        RunStep::Perform { run: Run { args: self.args, unix: self.unix, stage }, action }
    }

    fn make_cell<V, E>(self) -> (step: RunStep<A, S, V, T, E>)
        ensures
            step@ == making_cell::<A, S, V, T, E>(self@.args, self@.unix),
    {
        self.at(Stage::MakingCell, RunAction::MakeTokenCell { token: None })
    }

    fn install<V, E>(self) -> (step: RunStep<A, S, V, T, E>)
        ensures
            step@ == installing::<A, S, V, T, E>(self@.args, self@.unix),
    {
        if self.unix {
            self.at(Stage::Installing, RunAction::InstallSignalHandlers)
        } else {
            self.make_cell()
        }
    }

    fn done<V, E>(self) -> (step: RunStep<A, S, V, T, E>)
        ensures
            step@ == done_step::<A, S, V, T, E>(self@),
    {
        match &self.stage {
            Stage::Logging => {
                let config = EnvironmentConfig {
                    test_mode: self.args.test,
                    unsafe_fast_keystore: self.args.unsafe_fast_keystore,
                    identity_key: self.args.identity_key.clone(),
                };
                self.at(Stage::Creating, RunAction::CreateManager { config })
            },
            Stage::Creating => match self.args.key_passphrase.clone() {
                Some(passphrase) => self.at(
                    Stage::Unsealing,
                    RunAction::UnsealKeystore { passphrase: keep_secret(passphrase) },
                ),
                None => self.install(),
            },
            Stage::Unsealing => self.install(),
            Stage::Session { cell } => {
                let cell = cell.clone();
                self.at(Stage::Subscribing { cell }, RunAction::Subscribe)
            },
            _ => self.make_cell(),
        }
    }

    /// Says what follows.
    pub fn next<V, E>(self, event: RunEvent<S, V, T, E>) -> (step: RunStep<A, S, V, T, E>)
        requires
            answers(self@.stage, event),
        ensures
            step@ == next_run_step(self@, event),
    {
        match event {
            RunEvent::Done => self.done(),
            RunEvent::CellMade { cell } => self.at(
                Stage::Subscribing { cell: Arc::new(cell) },
                RunAction::Subscribe,
            ),
            RunEvent::Subscribed { subscription } => match self.stage {
                Stage::Subscribing { cell } => RunStep::Perform {
                    run: Run {
                        args: self.args,
                        unix: self.unix,
                        stage: Stage::Loading { cell, subscription },
                    },
                    action: RunAction::LoadEnvironment,
                },
                _ => RunStep::Finished,
            },
            RunEvent::Loaded { environment } => {
                let args = self.args.clone();
                match self.stage {
                    Stage::Loading { cell, subscription } => {
                        let auth_token = cell.clone();
                        RunStep::Perform {
                            run: Run {
                                args: self.args,
                                unix: self.unix,
                                stage: Stage::Session { cell },
                            },
                            action: RunAction::RunSession {
                                subscription,
                                environment,
                                auth_token,
                                args,
                            },
                        }
                    },
                    _ => RunStep::Finished,
                }
            },
            RunEvent::ShutDown => RunStep::Finished,
            RunEvent::Failed(error) => RunStep::Failed(error),
        }
    }
}

/// What is done in a run that starts with `step`, where `events` tells how it goes, in turn.
pub open spec fn performed<A, S, V, T, E>(
    step: RunStepView<A, S, V, T, E>,
    events: Seq<RunEvent<S, V, T, E>>,
) -> Seq<RunActionView<A, S, V, T>>
    decreases events.len(),
{
    match step {
        RunStepView::Perform { run, action } => if events.len() == 0 {
            seq![action]
        } else {
            seq![action] + performed(next_run_step(run, events[0]), events.drop_first())
        },
        _ => seq![],
    }
}

/// Where a run that starts with `step` has come to after `events`.
pub open spec fn reached<A, S, V, T, E>(
    step: RunStepView<A, S, V, T, E>,
    events: Seq<RunEvent<S, V, T, E>>,
) -> RunStepView<A, S, V, T, E>
    decreases events.len(),
{
    match step {
        RunStepView::Perform { run, .. } => if events.len() == 0 {
            step
        } else {
            reached(next_run_step(run, events[0]), events.drop_first())
        },
        _ => step,
    }
}

/// What is done once, before the first session.
pub open spec fn preparation<A, S, V, T>(args: ArgsView<A>, unix: bool) -> Seq<RunActionView<A, S, V, T>> {
    seq![
        RunActionView::SetUpLogging { dev_log: args.dev_log },
        RunActionView::CreateManager { config: manager_config(args) },
    ] + match args.key_passphrase {
        Some(passphrase) => seq![RunActionView::UnsealKeystore { passphrase }],
        None => seq![],
    } + if unix {
        seq![RunActionView::InstallSignalHandlers]
    } else {
        seq![]
    } + seq![RunActionView::MakeTokenCell { token: None }]
}

/// How many actions there are before the first session is prepared.
pub open spec fn preparation_len<A>(args: ArgsView<A>, unix: bool) -> int {
    3 + if args.key_passphrase is Some {
        1int
    } else {
        0
    } + if unix {
        1int
    } else {
        0
    }
}

/// Which of the three actions of a round, counted from zero, the action at a position is.
pub open spec fn place_in_round<A>(args: ArgsView<A>, unix: bool, position: int) -> int {
    (position - preparation_len(args, unix)) % 3
}

/// Whether the event at a position tells that its action went well.
pub open spec fn went_well<A, S, V, T, E>(
    args: ArgsView<A>,
    unix: bool,
    events: Seq<RunEvent<S, V, T, E>>,
    position: int,
) -> bool {
    let place = place_in_round(args, unix, position);
    if position == preparation_len(args, unix) - 1 {
        events[position] is CellMade
    } else if position < preparation_len(args, unix) || place == 2 {
        events[position] is Done
    } else if place == 0 {
        events[position] is Subscribed
    } else {
        events[position] is Loaded
    }
}

/// Whether everything went well up to a position.
pub open spec fn well_until<A, S, V, T, E>(
    args: ArgsView<A>,
    unix: bool,
    events: Seq<RunEvent<S, V, T, E>>,
    end: int,
) -> bool {
    &&& 0 <= end <= events.len()
    &&& forall|i: int| 0 <= i < end ==> #[trigger] went_well(args, unix, events, i)
}

/// Whether there was no environment at a position, and everything went well before.
pub open spec fn shut_down<A, S, V, T, E>(
    args: ArgsView<A>,
    unix: bool,
    events: Seq<RunEvent<S, V, T, E>>,
    at: int,
) -> bool {
    &&& 0 <= at < events.len()
    &&& well_until(args, unix, events, at)
    &&& at >= preparation_len(args, unix)
    &&& place_in_round(args, unix, at) == 1
    &&& events[at] is ShutDown
}

/// Whether something failed at a position, and everything went well before.
pub open spec fn failed<A, S, V, T, E>(
    args: ArgsView<A>,
    unix: bool,
    events: Seq<RunEvent<S, V, T, E>>,
    at: int,
) -> bool {
    &&& 0 <= at < events.len()
    &&& well_until(args, unix, events, at)
    &&& events[at] is Failed
}

/// The cell for the token: the last thing that the preparation leaves.
pub open spec fn token_cell<A, S, V, T, E>(
    args: ArgsView<A>,
    unix: bool,
    events: Seq<RunEvent<S, V, T, E>>,
) -> T {
    events[preparation_len(args, unix) - 1]->cell
}

/// What is done at a position if everything went well before: what belongs to the preparation,
/// and then one round after the other. A round prepares a session, loads the environment and
/// runs the session with what the two have left.
pub open spec fn action_at<A, S, V, T, E>(
    args: ArgsView<A>,
    unix: bool,
    events: Seq<RunEvent<S, V, T, E>>,
    position: int,
) -> RunActionView<A, S, V, T> {
    let place = place_in_round(args, unix, position);
    if position < preparation_len(args, unix) {
        preparation(args, unix)[position]
    } else if place == 0 {
        RunActionView::Subscribe
    } else if place == 1 {
        RunActionView::LoadEnvironment
    } else {
        RunActionView::RunSession {
            subscription: events[position - 2]->subscription,
            environment: events[position - 1]->environment,
            auth_token: token_cell(args, unix, events),
            args,
        }
    }
}

/// The stage at a position if everything went well before.
spec fn stage_at<A, S, V, T, E>(
    args: ArgsView<A>,
    unix: bool,
    events: Seq<RunEvent<S, V, T, E>>,
    position: int,
) -> StageView<S, T> {
    let place = place_in_round(args, unix, position);
    let cell = token_cell(args, unix, events);
    if position == 0 {
        StageView::Logging
    } else if position == 1 {
        StageView::Creating
    } else if position == 2 && args.key_passphrase is Some {
        StageView::Unsealing
    } else if position < preparation_len(args, unix) - 1 {
        StageView::Installing
    } else if position < preparation_len(args, unix) {
        StageView::MakingCell
    } else if place == 0 {
        StageView::Subscribing { cell }
    } else if place == 1 {
        StageView::Loading { cell, subscription: events[position - 1]->subscription }
    } else {
        StageView::Session { cell }
    }
}

/// The step at a position if everything went well before.
spec fn step_at<A, S, V, T, E>(
    args: ArgsView<A>,
    unix: bool,
    events: Seq<RunEvent<S, V, T, E>>,
    position: int,
) -> RunStepView<A, S, V, T, E> {
    perform(
        args,
        unix,
        stage_at(args, unix, events, position),
        action_at(args, unix, events, position),
    )
}

proof fn lemma_next_position<A, S, V, T, E>(
    args: ArgsView<A>,
    unix: bool,
    events: Seq<RunEvent<S, V, T, E>>,
    position: int,
)
    requires
        0 <= position < events.len(),
        went_well(args, unix, events, position),
    ensures
        next_run_step(step_at(args, unix, events, position)->run, events[position]) == step_at(
            args,
            unix,
            events,
            position + 1,
        ),
{
    let first = preparation::<A, S, V, T>(args, unix);
    assert(first.len() == preparation_len(args, unix));
    assert(first[1] == RunActionView::<A, S, V, T>::CreateManager { config: manager_config(args) });
}

/// What is done from a position on, as long as everything goes well.
proof fn lemma_well<A, S, V, T, E>(
    args: ArgsView<A>,
    unix: bool,
    events: Seq<RunEvent<S, V, T, E>>,
    from: int,
    end: int,
)
    requires
        0 <= from <= end,
        well_until(args, unix, events, end),
    ensures
        ({
            let step = step_at(args, unix, events, from);
            let all = performed(step, events.subrange(from, end));
            &&& all.len() == end - from + 1
            &&& forall|i: int|
                0 <= i < all.len() ==> #[trigger] all[i] == action_at(args, unix, events, from + i)
            &&& reached(step, events.subrange(from, end)) == step_at(args, unix, events, end)
        }),
    decreases end - from,
{
    let step = step_at(args, unix, events, from);
    let part = events.subrange(from, end);
    if from < end {
        assert(went_well(args, unix, events, from));
        lemma_next_position(args, unix, events, from);
        lemma_well(args, unix, events, from + 1, end);
        assert(part.drop_first() =~= events.subrange(from + 1, end));
        let later = performed(step_at(args, unix, events, from + 1), part.drop_first());
        let all = performed(step, part);
        assert(all =~= seq![action_at(args, unix, events, from)] + later);
        assert forall|i: int| 0 <= i < all.len() implies #[trigger] all[i] == action_at(
            args,
            unix,
            events,
            from + i,
        ) by {
            if i > 0 {
                assert(all[i] == later[i - 1]);
            }
        }
    }
}

/// What is done from a position on, if an event at a later one ends the process.
proof fn lemma_until_end<A, S, V, T, E>(
    args: ArgsView<A>,
    unix: bool,
    events: Seq<RunEvent<S, V, T, E>>,
    from: int,
    at: int,
)
    requires
        0 <= from <= at < events.len(),
        well_until(args, unix, events, at),
        events[at] is Failed || events[at] is ShutDown,
    ensures
        ({
            let step = step_at(args, unix, events, from);
            let part = events.skip(from);
            &&& performed(step, part) == performed(step, events.subrange(from, at))
            &&& reached(step, part) == match events[at] {
                RunEvent::Failed(error) => RunStepView::<A, S, V, T, E>::Failed(error),
                _ => RunStepView::Finished,
            }
        }),
    decreases at - from,
{
    let step = step_at(args, unix, events, from);
    let part = events.skip(from);
    assert(part[0] == events[from]);
    if from == at {
        reveal_with_fuel(performed, 2);
        reveal_with_fuel(reached, 2);
        assert(performed(step, part) =~= performed(step, events.subrange(from, at)));
    } else {
        assert(went_well(args, unix, events, from));
        lemma_next_position(args, unix, events, from);
        lemma_until_end(args, unix, events, from + 1, at);
        assert(part.drop_first() =~= events.skip(from + 1));
        assert(events.subrange(from, at).drop_first() =~= events.subrange(from + 1, at));
    }
}

/// As long as everything goes well, the process sets up logging, makes the service manager,
/// unseals the keystore if there is a passphrase and installs the signal handlers; then it runs
/// one session after the other. Before each session it prepares to be notified of a restart, and
/// only then asks for the environment. Each session is run with the subscription and the
/// environment of its own round, and with the arguments of the process.
pub proof fn law_order_of_run<A, S, V, T, E>(
    args: ArgsView<A>,
    unix: bool,
    events: Seq<RunEvent<S, V, T, E>>,
)
    requires
        well_until(args, unix, events, events.len() as int),
    ensures
        ({
            let all = performed(first_run_step::<A, S, V, T, E>(args, unix), events);
            &&& preparation::<A, S, V, T>(args, unix).len() == preparation_len(args, unix)
            &&& all.len() == events.len() + 1
            &&& forall|i: int|
                0 <= i < all.len() ==> #[trigger] all[i] == action_at(args, unix, events, i)
        }),
{
    let end = events.len() as int;
    lemma_well(args, unix, events, 0, end);
    assert(events.subrange(0, end) =~= events);
    assert(step_at(args, unix, events, 0) == first_run_step::<A, S, V, T, E>(args, unix));
}

/// The event at a position if everything goes well until there is no environment.
pub open spec fn well_event<A, S, V, T, E>(
    args: ArgsView<A>,
    unix: bool,
    cell: T,
    subscriptions: Seq<S>,
    environments: Seq<V>,
    position: int,
) -> RunEvent<S, V, T, E> {
    let within = position - preparation_len(args, unix);
    if within == -1 {
        RunEvent::CellMade { cell }
    } else if within < 0 || within % 3 == 2 {
        RunEvent::Done
    } else if within % 3 == 0 {
        RunEvent::Subscribed { subscription: subscriptions[within / 3] }
    } else if within / 3 < environments.len() {
        RunEvent::Loaded { environment: environments[within / 3] }
    } else {
        RunEvent::ShutDown
    }
}

/// The events if everything goes well until there is no environment.
pub open spec fn well_events<A, S, V, T, E>(
    args: ArgsView<A>,
    unix: bool,
    cell: T,
    subscriptions: Seq<S>,
    environments: Seq<V>,
) -> Seq<RunEvent<S, V, T, E>> {
    Seq::new(
        (preparation_len(args, unix) + 3 * environments.len() + 2) as nat,
        |i: int| well_event::<A, S, V, T, E>(args, unix, cell, subscriptions, environments, i),
    )
}

/// The action at a position that counts from the first preparation of a session.
pub open spec fn round_action<A, S, V, T>(
    args: ArgsView<A>,
    cell: T,
    subscriptions: Seq<S>,
    environments: Seq<V>,
    position: int,
) -> RunActionView<A, S, V, T> {
    if position % 3 == 0 {
        RunActionView::Subscribe
    } else if position % 3 == 1 {
        RunActionView::LoadEnvironment
    } else {
        RunActionView::RunSession {
            subscription: subscriptions[position / 3],
            environment: environments[position / 3],
            auth_token: cell,
            args,
        }
    }
}

/// A round for each environment, and the one in which there is none.
pub open spec fn round_actions<A, S, V, T>(
    args: ArgsView<A>,
    cell: T,
    subscriptions: Seq<S>,
    environments: Seq<V>,
) -> Seq<RunActionView<A, S, V, T>> {
    Seq::new(
        3 * environments.len() + 2,
        |i: int| round_action(args, cell, subscriptions, environments, i),
    )
}

/// If the environment is there some number of times and then is not, and everything else goes
/// well, then exactly that number of sessions is run, one after the other. Each of them is run with the environment
/// that was loaded for it, the subscription that was taken before that, the one cell for the token
/// and the arguments of the process. After the last one the process comes to its end without a failure.
pub proof fn law_one_session_per_environment<A, S, V, T, E>(
    args: ArgsView<A>,
    unix: bool,
    cell: T,
    subscriptions: Seq<S>,
    environments: Seq<V>,
)
    requires
        subscriptions.len() == environments.len() + 1,
    ensures
        ({
            let events = well_events::<A, S, V, T, E>(args, unix, cell, subscriptions, environments);
            let start = first_run_step::<A, S, V, T, E>(args, unix);
            &&& performed(start, events) == preparation::<A, S, V, T>(args, unix) + round_actions(
                args,
                cell,
                subscriptions,
                environments,
            )
            &&& reached(start, events) == RunStepView::<A, S, V, T, E>::Finished
        }),
{
    let events = well_events::<A, S, V, T, E>(args, unix, cell, subscriptions, environments);
    let start = first_run_step::<A, S, V, T, E>(args, unix);
    let first = preparation_len(args, unix);
    let at = first + 3 * environments.len() + 1;
    let actions = preparation::<A, S, V, T>(args, unix) + round_actions(
        args,
        cell,
        subscriptions,
        environments,
    );
    assert forall|i: int| 0 <= i < at implies #[trigger] went_well(args, unix, events, i) by {
        assert(events[i] == well_event::<A, S, V, T, E>(args, unix, cell, subscriptions, environments, i));
    }
    assert(events[at] is ShutDown);
    lemma_until_end(args, unix, events, 0, at);
    assert(events.skip(0) =~= events);
    assert(step_at(args, unix, events, 0) == start);
    lemma_well(args, unix, events, 0, at);
    let all = performed(start, events);
    assert(preparation::<A, S, V, T>(args, unix).len() == first);
    assert forall|i: int| 0 <= i < all.len() implies #[trigger] all[i] == actions[i] by {
        assert(all[i] == action_at(args, unix, events, i));
        if i >= first {
            let within = i - first;
            assert(actions[i] == round_action(args, cell, subscriptions, environments, within));
            if within % 3 == 2 {
                assert(events[i - 2] == well_event::<A, S, V, T, E>(
                    args,
                    unix,
                    cell,
                    subscriptions,
                    environments,
                    i - 2,
                ));
                assert(events[i - 1] == well_event::<A, S, V, T, E>(
                    args,
                    unix,
                    cell,
                    subscriptions,
                    environments,
                    i - 1,
                ));
                assert((within - 2) / 3 == within / 3 && (within - 1) / 3 == within / 3);
            }
        }
    }
    assert(all =~= actions);
}

/// The cell for the token is made once, without a token, before the first session, and every
/// session gets that same cell: a reload never clears the token.
pub proof fn law_token_outlives_sessions<A, S, V, T, E>(
    args: ArgsView<A>,
    unix: bool,
    events: Seq<RunEvent<S, V, T, E>>,
)
    requires
        well_until(args, unix, events, events.len() as int),
    ensures
        ({
            let all = performed(first_run_step::<A, S, V, T, E>(args, unix), events);
            forall|i: int|
                #![trigger all[i]]
                0 <= i < all.len() ==> {
                    &&& all[i] is MakeTokenCell <==> i == preparation_len(args, unix) - 1
                    &&& all[i] is MakeTokenCell ==> all[i]->token is None
                    &&& all[i] is RunSession ==> {
                        &&& i > preparation_len(args, unix)
                        &&& all[i]->auth_token == token_cell(args, unix, events)
                    }
                }
        }),
{
    law_order_of_run(args, unix, events);
    let all = performed(first_run_step::<A, S, V, T, E>(args, unix), events);
    assert forall|i: int|
        #![trigger all[i]]
        0 <= i < all.len() implies {
        &&& all[i] is MakeTokenCell <==> i == preparation_len(args, unix) - 1
        &&& all[i] is MakeTokenCell ==> all[i]->token is None
        &&& all[i] is RunSession ==> {
            &&& i > preparation_len(args, unix)
            &&& all[i]->auth_token == token_cell(args, unix, events)
        }
    } by {
        assert(all[i] == action_at(args, unix, events, i));
    }
}

/// The first failure ends the process with that error, and nothing is done after it.
pub proof fn law_failure_ends_run<A, S, V, T, E>(
    args: ArgsView<A>,
    unix: bool,
    events: Seq<RunEvent<S, V, T, E>>,
    at: int,
)
    requires
        failed(args, unix, events, at),
    ensures
        ({
            let start = first_run_step::<A, S, V, T, E>(args, unix);
            &&& performed(start, events) == performed(start, events.take(at))
            &&& reached(start, events) == RunStepView::<A, S, V, T, E>::Failed(events[at]->Failed_0)
        }),
{
    lemma_until_end(args, unix, events, 0, at);
    assert(events.skip(0) =~= events);
    assert(step_at(args, unix, events, 0) == first_run_step::<A, S, V, T, E>(args, unix));
}

/// The process comes to its end as soon as there is no environment, and nothing is done after
/// that.
pub proof fn law_shutdown_ends_run<A, S, V, T, E>(
    args: ArgsView<A>,
    unix: bool,
    events: Seq<RunEvent<S, V, T, E>>,
    at: int,
)
    requires
        shut_down(args, unix, events, at),
    ensures
        ({
            let start = first_run_step::<A, S, V, T, E>(args, unix);
            &&& performed(start, events) == performed(start, events.take(at))
            &&& reached(start, events) == RunStepView::<A, S, V, T, E>::Finished
        }),
{
    lemma_until_end(args, unix, events, 0, at);
    assert(events.skip(0) =~= events);
    assert(step_at(args, unix, events, 0) == first_run_step::<A, S, V, T, E>(args, unix));
}

/// Whether each event answers its action, up to the one that ends the process.
pub open spec fn answered<A, S, V, T, E>(
    args: ArgsView<A>,
    unix: bool,
    events: Seq<RunEvent<S, V, T, E>>,
) -> bool {
    forall|at: int|
        0 <= at < events.len() && #[trigger] well_until(args, unix, events, at) ==> {
            ||| went_well(args, unix, events, at)
            ||| failed(args, unix, events, at)
            ||| shut_down(args, unix, events, at)
        }
}

/// The process comes to its end without a failure only if there is no environment, and with a
/// failure only if something has failed.
pub proof fn law_ends_of_run<A, S, V, T, E>(
    args: ArgsView<A>,
    unix: bool,
    events: Seq<RunEvent<S, V, T, E>>,
)
    requires
        answered(args, unix, events),
    ensures
        ({
            let end = reached(first_run_step::<A, S, V, T, E>(args, unix), events);
            &&& end is Finished <==> exists|at: int| #[trigger] shut_down(args, unix, events, at)
            &&& end is Failed <==> exists|at: int| #[trigger] failed(args, unix, events, at)
        }),
{
    let end = lemma_longest_well(args, unix, events, 0);
    if end == events.len() {
        lemma_well(args, unix, events, 0, end);
        assert(events.subrange(0, end) =~= events);
        assert(step_at(args, unix, events, 0) == first_run_step::<A, S, V, T, E>(args, unix));
        assert forall|at: int| !(#[trigger] shut_down(args, unix, events, at)) by {
            assert(0 <= at < end ==> went_well(args, unix, events, at));
        }
        assert forall|at: int| !(#[trigger] failed(args, unix, events, at)) by {
            assert(0 <= at < end ==> went_well(args, unix, events, at));
        }
    } else {
        assert(failed(args, unix, events, end) || shut_down(args, unix, events, end));
        if failed(args, unix, events, end) {
            law_failure_ends_run(args, unix, events, end);
        } else {
            law_shutdown_ends_run(args, unix, events, end);
        }
        assert forall|at: int| #[trigger] shut_down(args, unix, events, at) implies at == end by {
            lemma_same_end(args, unix, events, at, end);
        }
        assert forall|at: int| #[trigger] failed(args, unix, events, at) implies at == end by {
            lemma_same_end(args, unix, events, at, end);
        }
    }
}

/// Two positions up to which everything went well and at which it did not are the same.
proof fn lemma_same_end<A, S, V, T, E>(
    args: ArgsView<A>,
    unix: bool,
    events: Seq<RunEvent<S, V, T, E>>,
    first: int,
    second: int,
)
    requires
        well_until(args, unix, events, first),
        well_until(args, unix, events, second),
        !went_well(args, unix, events, first),
        !went_well(args, unix, events, second),
    ensures
        first == second,
{
}

/// How long everything went well.
proof fn lemma_longest_well<A, S, V, T, E>(
    args: ArgsView<A>,
    unix: bool,
    events: Seq<RunEvent<S, V, T, E>>,
    from: int,
) -> (end: int)
    requires
        well_until(args, unix, events, from),
    ensures
        well_until(args, unix, events, end),
        end < events.len() ==> !went_well(args, unix, events, end),
    decreases events.len() - from,
{
    if from < events.len() && went_well(args, unix, events, from) {
        lemma_longest_well(args, unix, events, from + 1)
    } else {
        from
    }
}

/// The arguments and the configuration are seen field by field.
pub proof fn law_views_of_arguments<A>(args: Args<A>, config: EnvironmentConfig)
    ensures
        args@.test == args.test,
        args@.unsafe_fast_keystore == args.unsafe_fast_keystore,
        args@.identity_key == args.identity_key.deep_view(),
        args@.key_passphrase == args.key_passphrase.deep_view(),
        args@.insecure_http_api == args.insecure_http_api,
        args@.default_seeds == args.default_seeds.deep_view(),
        args@.seeds == args.seeds.deep_view(),
        args@.http_listen == args.http_listen,
        args@.peer_listen == args.peer_listen,
        args@.dev_log == args.dev_log,
        config@.test_mode == config.test_mode,
        config@.unsafe_fast_keystore == config.unsafe_fast_keystore,
        config@.identity_key == config.identity_key.deep_view(),
{
}

/// Actions and steps are seen as they are.
pub proof fn law_views_of_actions<A, S, V, T, E>(
    action: RunAction<A, S, V, T>,
    step: RunStep<A, S, V, T, E>,
)
    ensures
        match action {
            RunAction::SetUpLogging { dev_log } => action@ == (RunActionView::<
                A,
                S,
                V,
                T,
            >::SetUpLogging { dev_log }),
            RunAction::CreateManager { config } => action@ == (RunActionView::<
                A,
                S,
                V,
                T,
            >::CreateManager { config: config@ }),
            RunAction::UnsealKeystore { passphrase } => action@ == (RunActionView::<
                A,
                S,
                V,
                T,
            >::UnsealKeystore { passphrase: secret_text(passphrase) }),
            RunAction::InstallSignalHandlers => action@ is InstallSignalHandlers,
            RunAction::MakeTokenCell { token } => action@ == (RunActionView::<
                A,
                S,
                V,
                T,
            >::MakeTokenCell { token: token.deep_view() }),
            RunAction::Subscribe => action@ is Subscribe,
            RunAction::LoadEnvironment => action@ is LoadEnvironment,
            RunAction::RunSession { subscription, environment, auth_token, args } => {
                &&& action@ is RunSession
                &&& action@->subscription == subscription
                &&& action@->environment == environment
                &&& action@->auth_token == *auth_token
                &&& action@->args == args@
            },
        },
        match step {
            RunStep::Perform { run, action } => {
                &&& step@ is Perform
                &&& step@->run == run@
                &&& step@->action == action@
            },
            RunStep::Finished => step@ is Finished,
            RunStep::Failed(error) => step@ == RunStepView::<A, S, V, T, E>::Failed(error),
        },
{
}

/// Whether an action does what the arguments ask for.
spec fn follows_arguments<A, S, V, T>(
    action: RunActionView<A, S, V, T>,
    args: ArgsView<A>,
    unix: bool,
) -> bool {
    match action {
        RunActionView::SetUpLogging { dev_log } => dev_log == args.dev_log,
        RunActionView::CreateManager { config } => {
            &&& config.test_mode == args.test
            &&& config.unsafe_fast_keystore == args.unsafe_fast_keystore
            &&& config.identity_key == args.identity_key
        },
        RunActionView::UnsealKeystore { passphrase } => args.key_passphrase == Some(passphrase),
        RunActionView::InstallSignalHandlers => unix,
        RunActionView::MakeTokenCell { token } => token is None,
        RunActionView::RunSession { args: given, .. } => given == args,
        _ => true,
    }
}

proof fn lemma_follows_arguments<A, S, V, T, E>(
    step: RunStepView<A, S, V, T, E>,
    args: ArgsView<A>,
    unix: bool,
    events: Seq<RunEvent<S, V, T, E>>,
)
    requires
        step matches RunStepView::Perform { run, action } ==> run.args == args && run.unix == unix
            && follows_arguments(action, args, unix),
    ensures
        forall|i: int|
            0 <= i < performed(step, events).len() ==> follows_arguments(
                #[trigger] performed(step, events)[i],
                args,
                unix,
            ),
    decreases events.len(),
{
    if let RunStepView::Perform { run, action } = step {
        if events.len() > 0 {
            let next = next_run_step(run, events[0]);
            let rest = events.drop_first();
            lemma_follows_arguments(next, args, unix, rest);
            assert forall|i: int| 0 <= i < performed(step, events).len() implies follows_arguments(
                #[trigger] performed(step, events)[i],
                args,
                unix,
            ) by {
                if i > 0 {
                    assert(performed(step, events)[i] == performed(next, rest)[i - 1]);
                }
            }
        }
    }
}

/// However it goes, the service manager is made from the arguments: it is made for tests exactly if
/// that is asked for, with the fast keystore exactly if that is asked for, and with the identity
/// key that is given, if one is.
pub proof fn law_manager_is_made_from_arguments<A, S, V, T, E>(
    args: ArgsView<A>,
    unix: bool,
    events: Seq<RunEvent<S, V, T, E>>,
    at: int,
)
    requires
        0 <= at < performed(first_run_step::<A, S, V, T, E>(args, unix), events).len(),
    ensures
        performed(first_run_step::<A, S, V, T, E>(args, unix), events)[at] matches
            RunActionView::CreateManager { config } ==> {
            &&& config.test_mode == args.test
            &&& config.unsafe_fast_keystore == args.unsafe_fast_keystore
            &&& config.identity_key == args.identity_key
        },
{
    lemma_follows_arguments(first_run_step::<A, S, V, T, E>(args, unix), args, unix, events);
    let action = performed(first_run_step::<A, S, V, T, E>(args, unix), events)[at];
    assert(follows_arguments(action, args, unix));
}

/// However it goes, logging is set up for developers exactly if that is asked for, the keystore is
/// unsealed with the passphrase that is given and never without one, signal handlers are installed
/// on Unix only, the cell for the token is made without a token, and every session gets all of the
/// arguments.
pub proof fn law_actions_follow_arguments<A, S, V, T, E>(
    args: ArgsView<A>,
    unix: bool,
    events: Seq<RunEvent<S, V, T, E>>,
    at: int,
)
    requires
        0 <= at < performed(first_run_step::<A, S, V, T, E>(args, unix), events).len(),
    ensures
        ({
            let action = performed(first_run_step::<A, S, V, T, E>(args, unix), events)[at];
            &&& action matches RunActionView::SetUpLogging { dev_log } ==> dev_log == args.dev_log
            &&& action matches RunActionView::UnsealKeystore { passphrase } ==> args.key_passphrase
                == Some(passphrase)
            &&& action is InstallSignalHandlers ==> unix
            &&& action matches RunActionView::MakeTokenCell { token } ==> token is None
            &&& action matches RunActionView::RunSession { args: given, .. } ==> given == args
        }),
{
    lemma_follows_arguments(first_run_step::<A, S, V, T, E>(args, unix), args, unix, events);
    let action = performed(first_run_step::<A, S, V, T, E>(args, unix), events)[at];
    assert(follows_arguments(action, args, unix));
}

/// As long as everything goes well, the process first sets up logging, then makes the service
/// manager, then unseals the keystore with the passphrase if there is one, then installs the signal
/// handlers on Unix, then makes the cell for the token, and then prepares the first session.
pub proof fn law_preparation<A, S, V, T, E>(
    args: ArgsView<A>,
    unix: bool,
    events: Seq<RunEvent<S, V, T, E>>,
)
    requires
        events.len() >= 5,
        well_until(args, unix, events, events.len() as int),
    ensures
        ({
            let all = performed(first_run_step::<A, S, V, T, E>(args, unix), events);
            let unsealed: int = if args.key_passphrase is Some {
                3
            } else {
                2
            };
            let installed: int = if unix {
                unsealed + 1
            } else {
                unsealed
            };
            &&& all[0] == (RunActionView::<A, S, V, T>::SetUpLogging { dev_log: args.dev_log })
            &&& all[1] == (RunActionView::<A, S, V, T>::CreateManager {
                config: EnvironmentConfigView {
                    test_mode: args.test,
                    unsafe_fast_keystore: args.unsafe_fast_keystore,
                    identity_key: args.identity_key,
                },
            })
            &&& args.key_passphrase matches Some(passphrase) ==> all[2] == (RunActionView::<
                A,
                S,
                V,
                T,
            >::UnsealKeystore { passphrase })
            &&& unix ==> all[unsealed] is InstallSignalHandlers
            &&& all[installed] == (RunActionView::<A, S, V, T>::MakeTokenCell { token: None })
            &&& all[installed + 1] is Subscribe
        }),
{
    law_order_of_run(args, unix, events);
    let all = performed(first_run_step::<A, S, V, T, E>(args, unix), events);
    assert(all[0] == action_at(args, unix, events, 0));
    assert(all[1] == action_at(args, unix, events, 1));
    assert(all[2] == action_at(args, unix, events, 2));
    assert(all[3] == action_at(args, unix, events, 3));
    assert(all[4] == action_at(args, unix, events, 4));
    assert(all[5] == action_at(args, unix, events, 5));
}

/// A round hands on what it has been given: after a session is prepared the environment is asked
/// for, and a session is run with that environment, with what was prepared for it and with the one
/// cell. After the session the next round begins, with the same arguments and the same cell.
pub proof fn law_round<A, S, V, T, E>(
    args: ArgsView<A>,
    unix: bool,
    cell: T,
    subscription: S,
    environment: V,
)
    ensures
        ({
            let at = |stage: StageView<S, T>| RunView { args, unix, stage };
            let prepare = RunStepView::<A, S, V, T, E>::Perform {
                run: at(StageView::Subscribing { cell }),
                action: RunActionView::Subscribe,
            };
            &&& next_run_step::<A, S, V, T, E>(
                at(StageView::MakingCell),
                RunEvent::CellMade { cell },
            ) == prepare
            &&& next_run_step::<A, S, V, T, E>(
                at(StageView::Subscribing { cell }),
                RunEvent::Subscribed { subscription },
            ) == (RunStepView::<A, S, V, T, E>::Perform {
                run: at(StageView::Loading { cell, subscription }),
                action: RunActionView::LoadEnvironment,
            })
            &&& next_run_step::<A, S, V, T, E>(
                at(StageView::Loading { cell, subscription }),
                RunEvent::Loaded { environment },
            ) == (RunStepView::<A, S, V, T, E>::Perform {
                run: at(StageView::Session { cell }),
                action: RunActionView::RunSession {
                    subscription,
                    environment,
                    auth_token: cell,
                    args,
                },
            })
            &&& next_run_step::<A, S, V, T, E>(
                at(StageView::Loading { cell, subscription }),
                RunEvent::ShutDown,
            ) is Finished
            &&& next_run_step::<A, S, V, T, E>(at(StageView::Session { cell }), RunEvent::Done)
                == prepare
        }),
{
}

/// Whatever is being done, a failure ends the process with that error.
pub proof fn law_failure_is_handed_on<A, S, V, T, E>(run: RunView<A, S, T>, error: E)
    ensures
        next_run_step::<A, S, V, T, E>(run, RunEvent::Failed(error)) == RunStepView::<
            A,
            S,
            V,
            T,
            E,
        >::Failed(error),
{
}

/// Once logging is set up the service manager is made, from the arguments. Once it is made the
/// keystore is unsealed if there is a passphrase, even an empty one. Then, or else right away, the
/// signal handlers are installed on Unix, and then, or else right away, the cell for the token is
/// made. None of this changes the arguments.
pub proof fn law_preparation_in_turn<A, S, V, T, E>(args: ArgsView<A>, unix: bool)
    ensures
        ({
            let after = |stage: StageView<S, T>| next_run_step::<A, S, V, T, E>(
                RunView { args, unix, stage },
                RunEvent::Done,
            );
            let done = |step: RunStepView<A, S, V, T, E>, stage: StageView<S, T>|
                step is Perform && step->run == (RunView::<A, S, T> { args, unix, stage });
            let handled = |step: RunStepView<A, S, V, T, E>|
                {
                    &&& unix ==> done(step, StageView::Installing)
                        && step->action is InstallSignalHandlers
                    &&& !unix ==> done(step, StageView::MakingCell) && step->action == (
                    RunActionView::<A, S, V, T>::MakeTokenCell { token: None })
                };
            let made = after(StageView::Logging);
            &&& done(made, StageView::Creating)
            &&& made->action is CreateManager
            &&& made->action->config.test_mode == args.test
            &&& made->action->config.unsafe_fast_keystore == args.unsafe_fast_keystore
            &&& made->action->config.identity_key == args.identity_key
            &&& args.key_passphrase matches Some(passphrase) ==> {
                let unsealed = after(StageView::Creating);
                &&& done(unsealed, StageView::Unsealing)
                &&& unsealed->action == (RunActionView::<A, S, V, T>::UnsealKeystore { passphrase })
            }
            &&& args.key_passphrase is None ==> handled(after(StageView::Creating))
            &&& handled(after(StageView::Unsealing))
            &&& done(after(StageView::Installing), StageView::MakingCell)
            &&& after(StageView::Installing)->action == (RunActionView::<
                A,
                S,
                V,
                T,
            >::MakeTokenCell { token: None })
        }),
{
}

} // verus!
