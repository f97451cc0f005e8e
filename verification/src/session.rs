//! A session of the proxy process: what runs between two restarts.
use crate::process::{Args, ArgsView};
use crate::text::{copy_texts, Text};
use vstd::prelude::*;

verus! {

/// How often the session store is written to disk, in milliseconds.
pub const STORE_FLUSH_MILLIS: u64 = 100;

/// What a session needs of its environment, where `K` is the keystore and `P` are the paths of the
/// profile.
#[derive(Debug)]
pub struct Environment<K, P> {
    /// Whether the environment has a temporary directory.
    pub temp_dir: bool,
    /// Whether the environment is there for tests.
    pub test_mode: bool,
    /// Whether the key is at hand, so that the peer can run.
    pub key: bool,
    pub keystore: K,
    pub paths: P,
}

/// Where the session store is.
#[derive(Debug)]
pub enum StoreLocation {
    /// In the temporary directory, under a name.
    TempDir { name: String },
    /// In the place for the profile, which depends on the Radicle home.
    Profile,
}

/// The mathematical value of a [`StoreLocation`].
pub enum StoreLocationView {
    TempDir { name: Text },
    Profile,
}

impl View for StoreLocation {
    type V = StoreLocationView;

    open spec fn view(&self) -> StoreLocationView {
        match self {
            StoreLocation::TempDir { name } => StoreLocationView::TempDir { name: name@ },
            StoreLocation::Profile => StoreLocationView::Profile,
        }
    }
}

/// What the HTTP API knows of the arguments and the environment.
#[derive(Debug)]
pub struct Settings {
    /// Do not ask for a token.
    pub insecure_http_api: bool,
    /// Whether the environment is there for tests.
    pub test: bool,
    /// The seeds of a new session.
    pub default_seeds: Vec<String>,
    /// The seeds that are used in place of the configured ones.
    pub seeds: Option<Vec<String>>,
}

/// What a session is given to hand on to the HTTP API: a handle `S` of the service, the cell `T`
/// that holds the token, the keystore `K` and the paths `P`.
#[derive(Debug)]
pub struct Handles<S, T, K, P> {
    pub service_handle: S,
    pub auth_token: T,
    pub keystore: K,
    pub paths: P,
}

/// What the HTTP API works on, without the key: the session store `D`, the settings, the handles
/// `H` that the session was given, and the notifier `N` of its shutdown.
#[derive(Debug)]
pub struct Sealed<D, H, N> {
    pub store: D,
    pub settings: Settings,
    pub handles: H,
    pub shutdown: N,
}

/// What the HTTP API works on once there is a peer `R`.
#[derive(Debug)]
pub struct Unsealed<R, D, H, N> {
    pub peer: R,
    pub rest: Sealed<D, H, N>,
}

/// What the HTTP API works on.
#[derive(Debug)]
pub enum Context<R, D, H, N> {
    Sealed(Sealed<D, H, N>),
    Unsealed(Unsealed<R, D, H, N>),
}

impl<R, D, H, N> Context<R, D, H, N> {
    /// The context of a session, which is unsealed if the session has a peer.
    pub open spec fn of(peer: Option<R>, sealed: Sealed<D, H, N>) -> Context<R, D, H, N> {
        match peer {
            Some(peer) => Context::Unsealed(Unsealed { peer, rest: sealed }),
            None => Context::Sealed(sealed),
        }
    }

    /// The part that does not depend on the peer.
    pub open spec fn sealed_part(self) -> Sealed<D, H, N> {
        match self {
            Context::Sealed(sealed) => sealed,
            Context::Unsealed(unsealed) => unsealed.rest,
        }
    }

    /// Makes the context of a session.
    pub fn new(peer: Option<R>, sealed: Sealed<D, H, N>) -> (context: Context<R, D, H, N>)
        ensures
            context == Context::of(peer, sealed),
            context.sealed_part() == sealed,
    {
        match peer {
            Some(peer) => Context::Unsealed(Unsealed { peer, rest: sealed }),
            None => Context::Sealed(sealed),
        }
    }

    /// Returns the notifier of the shutdown.
    pub fn shutdown(&self) -> (shutdown: &N)
        ensures
            *shutdown == self.sealed_part().shutdown,
    {
        match self {
            Context::Sealed(sealed) => &sealed.shutdown,
            Context::Unsealed(unsealed) => &unsealed.rest.shutdown,
        }
    }
}

/// What runs in a session, where `C` is what the HTTP API works on.
#[derive(Debug)]
pub enum Task<A, C> {
    /// Waiting for a restart to be asked for.
    RestartSignal,
    /// Following the configured seeds.
    SeedWatch,
    /// The peer.
    Peer,
    /// The HTTP API.
    Server { listen: A, context: C },
}

/// One step of a session. Each is taken only if all before it went well.
#[derive(Debug)]
pub enum SessionStep<A, C> {
    /// Open the session store.
    OpenStore { location: StoreLocation, flush_millis: u64 },
    /// Make a new notifier of the shutdown.
    MakeNotifier,
    /// Resolve seeds and let the peer discover them.
    ResolveSeeds { seeds: Vec<String> },
    /// Let the peer discover the seeds that the session store holds, whenever they change.
    FollowSeeds,
    /// Make the peer from the store, the key and the discovered seeds.
    CreatePeer { listen: A },
    /// Log what happens to the peer.
    LogPeerEvents,
    /// Let a task run in the session.
    AddTask { task: Task<A, C> },
    /// Run the tasks until the session ends.
    RunTasks,
}

/// The mathematical value of a [`SessionStep`].
pub enum SessionStepView<A, C> {
    OpenStore { location: StoreLocationView, flush_millis: u64 },
    MakeNotifier,
    ResolveSeeds { seeds: Seq<Text> },
    FollowSeeds,
    CreatePeer { listen: A },
    LogPeerEvents,
    AddTask { task: Task<A, C> },
    RunTasks,
}

impl<A, C> DeepView for SessionStep<A, C> {
    type V = SessionStepView<A, C>;

    open spec fn deep_view(&self) -> SessionStepView<A, C> {
        match self {
            SessionStep::OpenStore { location, flush_millis } => SessionStepView::OpenStore {
                location: location@,
                flush_millis: *flush_millis,
            },
            SessionStep::MakeNotifier => SessionStepView::MakeNotifier,
            SessionStep::ResolveSeeds { seeds } => SessionStepView::ResolveSeeds {
                seeds: seeds.deep_view(),
            },
            SessionStep::FollowSeeds => SessionStepView::FollowSeeds,
            SessionStep::CreatePeer { listen } => SessionStepView::CreatePeer { listen: *listen },
            SessionStep::LogPeerEvents => SessionStepView::LogPeerEvents,
            SessionStep::AddTask { task } => SessionStepView::AddTask { task: *task },
            SessionStep::RunTasks => SessionStepView::RunTasks,
        }
    }
}

/// How a step went.
#[derive(Debug)]
pub enum SessionEvent<D, R, N, E> {
    /// It is done.
    Done,
    /// The store is open.
    Opened { store: D },
    /// The notifier is made.
    NotifierMade { shutdown: N },
    /// The peer is made.
    PeerCreated { peer: R },
    /// The tasks have run.
    Ran { results: Vec<Result<(), E>> },
    /// It has failed.
    Failed(E),
}

/// The mathematical value of a [`SessionEvent`].
pub enum SessionEventView<D, R, N, E> {
    Done,
    Opened { store: D },
    NotifierMade { shutdown: N },
    PeerCreated { peer: R },
    Ran { results: Seq<Result<(), E>> },
    Failed(E),
}

impl<D, R, N, E> View for SessionEvent<D, R, N, E> {
    type V = SessionEventView<D, R, N, E>;

    open spec fn view(&self) -> SessionEventView<D, R, N, E> {
        match self {
            SessionEvent::Done => SessionEventView::Done,
            SessionEvent::Opened { store } => SessionEventView::Opened { store: *store },
            SessionEvent::NotifierMade { shutdown } => SessionEventView::NotifierMade {
                shutdown: *shutdown,
            },
            SessionEvent::PeerCreated { peer } => SessionEventView::PeerCreated { peer: *peer },
            SessionEvent::Ran { results } => SessionEventView::Ran { results: results@ },
            SessionEvent::Failed(error) => SessionEventView::Failed(*error),
        }
    }
}

/// A session that is under way.
#[derive(Debug)]
pub enum Session<A, D, R, H, N> {
    /// The store is opened.
    Opening {
        settings: Settings,
        handles: H,
        upcoming: Vec<SessionStep<A, Context<R, D, H, N>>>,
        listen: A,
    },
    /// The notifier is made.
    Notifying {
        store: D,
        settings: Settings,
        handles: H,
        upcoming: Vec<SessionStep<A, Context<R, D, H, N>>>,
        listen: A,
    },
    /// A step is taken that prepares the server.
    Preparing {
        /// What is said of a failure of the step, if anything.
        failure: Option<String>,
        /// Whether the peer is made in the step.
        creating: bool,
        /// The steps after it that prepare the server.
        upcoming: Vec<SessionStep<A, Context<R, D, H, N>>>,
        listen: A,
        sealed: Sealed<D, H, N>,
        peer: Option<R>,
    },
    /// The server is added.
    Serving,
    /// The tasks run.
    Running,
}

/// The mathematical value of a [`Session`].
pub enum SessionView<A, D, R, H, N> {
    Opening {
        settings: Settings,
        handles: H,
        upcoming: Seq<SessionStepView<A, Context<R, D, H, N>>>,
        listen: A,
    },
    Notifying {
        store: D,
        settings: Settings,
        handles: H,
        upcoming: Seq<SessionStepView<A, Context<R, D, H, N>>>,
        listen: A,
    },
    Preparing {
        failure: Option<Text>,
        creating: bool,
        upcoming: Seq<SessionStepView<A, Context<R, D, H, N>>>,
        listen: A,
        sealed: Sealed<D, H, N>,
        peer: Option<R>,
    },
    Serving,
    Running,
}

impl<A, D, R, H, N> View for Session<A, D, R, H, N> {
    type V = SessionView<A, D, R, H, N>;

    open spec fn view(&self) -> SessionView<A, D, R, H, N> {
        match self {
            Session::Opening { settings, handles, upcoming, listen } => SessionView::Opening {
                settings: *settings,
                handles: *handles,
                upcoming: upcoming.deep_view(),
                listen: *listen,
            },
            Session::Notifying { store, settings, handles, upcoming, listen } =>
            SessionView::Notifying {
                store: *store,
                settings: *settings,
                handles: *handles,
                upcoming: upcoming.deep_view(),
                listen: *listen,
            },
            Session::Preparing { failure, creating, upcoming, listen, sealed, peer } =>
            SessionView::Preparing {
                failure: failure.deep_view(),
                creating: *creating,
                upcoming: upcoming.deep_view(),
                listen: *listen,
                sealed: *sealed,
                peer: *peer,
            },
            Session::Serving => SessionView::Serving,
            Session::Running => SessionView::Running,
        }
    }
}

/// What follows.
#[derive(Debug)]
pub enum SessionProgress<A, D, R, H, N, E> {
    /// Take a step and tell how it went.
    Perform { session: Session<A, D, R, H, N>, step: SessionStep<A, Context<R, D, H, N>> },
    /// All steps have been taken; the tasks decide how the session went.
    Finished { result: Result<(), E> },
    /// A step has failed.
    Failed { context: Option<String>, error: E },
}

/// The mathematical value of a [`SessionProgress`].
pub enum SessionProgressView<A, D, R, H, N, E> {
    Perform { session: SessionView<A, D, R, H, N>, step: SessionStepView<A, Context<R, D, H, N>> },
    Finished { result: Result<(), E> },
    Failed { context: Option<Text>, error: E },
}

impl<A, D, R, H, N, E> View for SessionProgress<A, D, R, H, N, E> {
    type V = SessionProgressView<A, D, R, H, N, E>;

    open spec fn view(&self) -> SessionProgressView<A, D, R, H, N, E> {
        match self {
            SessionProgress::Perform { session, step } => SessionProgressView::Perform {
                session: session@,
                step: step.deep_view(),
            },
            SessionProgress::Finished { result } => SessionProgressView::Finished {
                result: *result,
            },
            SessionProgress::Failed { context, error } => SessionProgressView::Failed {
                context: context.deep_view(),
                error: *error,
            },
        }
    }
}

/// Where the session store is.
pub open spec fn store_location(temp_dir: bool) -> StoreLocationView {
    if temp_dir {
        StoreLocationView::TempDir { name: "store"@ }
    } else {
        StoreLocationView::Profile
    }
}

/// The step that opens the store.
pub open spec fn opening_step<A, C>(temp_dir: bool) -> SessionStepView<A, C> {
    SessionStepView::OpenStore {
        location: store_location(temp_dir),
        flush_millis: STORE_FLUSH_MILLIS,
    }
}

/// How the peer finds other peers: by the given seeds, or by the configured ones.
pub open spec fn discovery_steps<A, C>(seeds: Option<Seq<Text>>) -> Seq<SessionStepView<A, C>> {
    match seeds {
        Some(seeds) => seq![SessionStepView::ResolveSeeds { seeds }],
        None => seq![
            SessionStepView::FollowSeeds,
            SessionStepView::AddTask { task: Task::SeedWatch },
        ],
    }
}

/// How the peer comes to run: not at all without the key.
pub open spec fn peer_steps<A, C>(
    key: bool,
    seeds: Option<Seq<Text>>,
    listen: A,
) -> Seq<SessionStepView<A, C>> {
    if key {
        discovery_steps(seeds) + seq![
            SessionStepView::CreatePeer { listen },
            SessionStepView::LogPeerEvents,
            SessionStepView::AddTask { task: Task::Peer },
        ]
    } else {
        seq![]
    }
}

/// The steps that prepare the server.
pub open spec fn preparing_steps<A, C>(key: bool, args: ArgsView<A>) -> Seq<SessionStepView<A, C>> {
    seq![SessionStepView::AddTask { task: Task::RestartSignal }] + peer_steps(
        key,
        args.seeds,
        args.peer_listen,
    )
}

/// The steps of a session whose HTTP API works on `context`.
pub open spec fn session_steps<A, C>(
    temp_dir: bool,
    key: bool,
    args: ArgsView<A>,
    context: C,
) -> Seq<SessionStepView<A, C>> {
    seq![opening_step(temp_dir), SessionStepView::MakeNotifier] + preparing_steps(key, args) + seq![
        SessionStepView::AddTask { task: Task::Server { listen: args.http_listen, context } },
        SessionStepView::RunTasks,
    ]
}

/// What the HTTP API knows of the arguments and the environment.
pub open spec fn session_settings<A, K, P>(
    environment: Environment<K, P>,
    args: Args<A>,
) -> Settings {
    Settings {
        insecure_http_api: args.insecure_http_api,
        test: environment.test_mode,
        default_seeds: args.default_seeds,
        seeds: args.seeds,
    }
}

/// The start of a session.
pub open spec fn first_progress<A, D, R, H, N, E>(
    temp_dir: bool,
    key: bool,
    args: ArgsView<A>,
    settings: Settings,
    handles: H,
) -> SessionProgressView<A, D, R, H, N, E> {
    SessionProgressView::Perform {
        session: SessionView::Opening {
            settings,
            handles,
            upcoming: preparing_steps(key, args),
            listen: args.http_listen,
        },
        step: opening_step(temp_dir),
    }
}

/// Starts a session with a handle of the service, its environment, the cell for the token and the
/// arguments of the process.
pub fn run_session<A, S, T, K, P, D, R, N, E>(
    service_handle: S,
    environment: Environment<K, P>,
    auth_token: T,
    args: Args<A>,
) -> (started: SessionProgress<A, D, R, Handles<S, T, K, P>, N, E>)
    ensures
        started@ == first_progress::<A, D, R, Handles<S, T, K, P>, N, E>(
            environment.temp_dir,
            environment.key,
            args@,
            session_settings(environment, args),
            (Handles {
                service_handle,
                auth_token,
                keystore: environment.keystore,
                paths: environment.paths,
            }),
        ),
{
    let ghost plan = args@;
    let location = if environment.temp_dir {
        StoreLocation::TempDir { name: "store".to_string() }
    } else {
        StoreLocation::Profile
    };
    let mut steps: Vec<SessionStep<A, Context<R, D, Handles<S, T, K, P>, N>>> = Vec::new();
    // A shutdown is triggered when the restart signal resolves.
    steps.push(SessionStep::AddTask { task: Task::RestartSignal });
    if environment.key {
        match &args.seeds {
            Some(given) => {
                let resolved = copy_texts(given);
                steps.push(SessionStep::ResolveSeeds { seeds: resolved });
            },
            None => {
                steps.push(SessionStep::FollowSeeds);
                steps.push(SessionStep::AddTask { task: Task::SeedWatch });
            },
        }
        steps.push(SessionStep::CreatePeer { listen: args.peer_listen });
        steps.push(SessionStep::LogPeerEvents);
        steps.push(SessionStep::AddTask { task: Task::Peer });
    }
    assert(steps.deep_view() =~= preparing_steps(environment.key, plan));
    let settings = Settings {
        insecure_http_api: args.insecure_http_api,
        test: environment.test_mode,
        default_seeds: args.default_seeds,
        seeds: args.seeds,
    };
    let handles = Handles {
        service_handle,
        auth_token,
        keystore: environment.keystore,
        paths: environment.paths,
    };
    SessionProgress::Perform {
        session: Session::Opening {
            settings,
            handles,
            upcoming: steps,
            listen: args.http_listen,
        },
        step: SessionStep::OpenStore { location, flush_millis: STORE_FLUSH_MILLIS },
    }
}

/// Whether a task is handed the signal to shut down.
pub open spec fn told_of_shutdown<A, C>(task: Task<A, C>) -> bool {
    task is Peer || task is Server
}

/// What is said of the failure of a task, if anything.
pub open spec fn task_failure<A, C>(task: Task<A, C>) -> Option<Text> {
    match task {
        Task::Peer => Some("failed to run peer"@),
        Task::Server { .. } => Some("server failed"@),
        _ => None,
    }
}

impl<A, C> Task<A, C> {
    /// Whether the task is handed the signal to shut down.
    pub fn takes_shutdown(&self) -> (takes: bool)
        ensures
            takes == told_of_shutdown(*self),
    {
        match self {
            Task::Peer | Task::Server { .. } => true,
            Task::RestartSignal | Task::SeedWatch => false,
        }
    }

    /// What is said of the failure of the task.
    pub fn failure(&self) -> (context: Option<String>)
        ensures
            context.deep_view() == task_failure(*self),
    {
        match self {
            Task::Peer => Some("failed to run peer".to_string()),
            Task::Server { .. } => Some("server failed".to_string()),
            Task::RestartSignal | Task::SeedWatch => None,
        }
    }
}

/// What is said of the failure of a step, if anything.
pub open spec fn step_failure<A, C>(step: SessionStepView<A, C>) -> Option<Text> {
    match step {
        SessionStepView::ResolveSeeds { .. } => Some("failed to parse and resolve seeds"@),
        _ => None,
    }
}

impl<A, C> SessionStep<A, C> {
    /// What is said of the failure of the step.
    pub fn failure(&self) -> (context: Option<String>)
        ensures
            context.deep_view() == step_failure(self.deep_view()),
    {
        match self {
            SessionStep::ResolveSeeds { .. } => Some(
                "failed to parse and resolve seeds".to_string(),
            ),
            _ => None,
        }
    }
}

/// The result of a session, from the results of its tasks: the first failure, if there is one.
pub open spec fn overall<E>(results: Seq<Result<(), E>>) -> Result<(), E>
    decreases results.len(),
{
    if results.len() == 0 {
        Ok(())
    } else if results[0] is Err {
        results[0]
    } else {
        overall(results.drop_first())
    }
}

/// Finds the first failure among the results of the tasks of a session.
pub fn session_result<E>(results: Vec<Result<(), E>>) -> (result: Result<(), E>)
    ensures
        result == overall(results@),
{
    let ghost all = results@;
    let mut seen: Ghost<int> = Ghost(0);
    assert(all.skip(0) =~= all);
    for result in it: results
        invariant
            it.seq() == all,
            seen@ == it.index(),
            overall(all) == overall(all.skip(seen@)),
    {
        assert(result == all[seen@]);
        assert(all.skip(seen@).drop_first() =~= all.skip(seen@ + 1));
        match result {
            Ok(_) => {},
            Err(error) => {
                return Err(error);
            },
        }
        proof {
            seen@ = seen@ + 1;
        }
    }
    Ok(())
}

/// The next step that prepares the server, or the one that adds it once it is prepared.
pub open spec fn preparing<A, D, R, H, N, E>(
    upcoming: Seq<SessionStepView<A, Context<R, D, H, N>>>,
    listen: A,
    sealed: Sealed<D, H, N>,
    peer: Option<R>,
) -> SessionProgressView<A, D, R, H, N, E> {
    if upcoming.len() == 0 {
        SessionProgressView::Perform {
            session: SessionView::Serving,
            step: SessionStepView::AddTask {
                task: Task::Server { listen, context: Context::of(peer, sealed) },
            },
        }
    } else {
        SessionProgressView::Perform {
            session: SessionView::Preparing {
                failure: step_failure(upcoming[0]),
                creating: upcoming[0] is CreatePeer,
                upcoming: upcoming.drop_first(),
                listen,
                sealed,
                peer,
            },
            step: upcoming[0],
        }
    }
}

/// Whether an event tells how the current step went.
pub open spec fn answers<A, D, R, H, N, E>(
    session: SessionView<A, D, R, H, N>,
    event: SessionEventView<D, R, N, E>,
) -> bool {
    event is Failed || match session {
        SessionView::Opening { .. } => event is Opened,
        SessionView::Notifying { .. } => event is NotifierMade,
        SessionView::Preparing { creating, .. } => if creating {
            event is PeerCreated
        } else {
            event is Done
        },
        SessionView::Serving => event is Done,
        SessionView::Running => event is Ran,
    }
}

/// What follows an event.
pub open spec fn next_progress<A, D, R, H, N, E>(
    session: SessionView<A, D, R, H, N>,
    event: SessionEventView<D, R, N, E>,
) -> SessionProgressView<A, D, R, H, N, E>
    recommends
        answers(session, event),
{
    match event {
        SessionEventView::Failed(error) => SessionProgressView::Failed {
            context: match session {
                SessionView::Preparing { failure, .. } => failure,
                _ => None,
            },
            error,
        },
        _ => match session {
            SessionView::Opening { settings, handles, upcoming, listen } =>
            SessionProgressView::Perform {
                session: SessionView::Notifying {
                    store: event->store,
                    settings,
                    handles,
                    upcoming,
                    listen,
                },
                step: SessionStepView::MakeNotifier,
            },
            SessionView::Notifying { store, settings, handles, upcoming, listen } => preparing(
                upcoming,
                listen,
                Sealed { store, settings, handles, shutdown: event->shutdown },
                None,
            ),
            SessionView::Preparing { creating, upcoming, listen, sealed, peer, .. } => preparing(
                upcoming,
                listen,
                sealed,
                if creating {
                    Some(event->peer)
                } else {
                    peer
                },
            ),
            SessionView::Serving => SessionProgressView::Perform {
                session: SessionView::Running,
                step: SessionStepView::RunTasks,
            },
            SessionView::Running => SessionProgressView::Finished {
                result: overall(event->results),
            },
        },
    }
}

impl<A, D, R, H, N> Session<A, D, R, H, N> {
    fn prepare<E>(
        upcoming: Vec<SessionStep<A, Context<R, D, H, N>>>,
        listen: A,
        sealed: Sealed<D, H, N>,
        peer: Option<R>,
    ) -> (after: SessionProgress<A, D, R, H, N, E>)
        ensures
            after@ == preparing::<A, D, R, H, N, E>(upcoming.deep_view(), listen, sealed, peer),
    {
        let ghost before = upcoming.deep_view();
        let mut upcoming = upcoming;
        if upcoming.len() == 0 {
            let context = Context::new(peer, sealed);
            SessionProgress::Perform {
                session: Session::Serving,
                step: SessionStep::AddTask { task: Task::Server { listen, context } },
            }
        } else {
            let step = upcoming.remove(0);
            assert(upcoming.deep_view() =~= before.drop_first());
            let creating = matches!(step, SessionStep::CreatePeer { .. });
            SessionProgress::Perform {
                session: Session::Preparing {
                    failure: step.failure(),
                    creating,
                    upcoming,
                    listen,
                    sealed,
                    peer,
                },
                step,
            }
        }
    }

    /// Says what follows.
    pub fn next<E>(self, event: SessionEvent<D, R, N, E>) -> (after: SessionProgress<
        A,
        D,
        R,
        H,
        N,
        E,
    >)
        requires
            answers(self@, event@),
        ensures
            after@ == next_progress(self@, event@),
    {
        match (self, event) {
            (Session::Preparing { failure, .. }, SessionEvent::Failed(error)) =>
            SessionProgress::Failed { context: failure, error },
            (_, SessionEvent::Failed(error)) => SessionProgress::Failed { context: None, error },
            (
                Session::Opening { settings, handles, upcoming, listen },
                SessionEvent::Opened { store },
            ) => SessionProgress::Perform {
                session: Session::Notifying { store, settings, handles, upcoming, listen },
                step: SessionStep::MakeNotifier,
            },
            (
                Session::Notifying { store, settings, handles, upcoming, listen },
                SessionEvent::NotifierMade { shutdown },
            ) => Session::prepare(
                upcoming,
                listen,
                Sealed { store, settings, handles, shutdown },
                None,
            ),
            (
                Session::Preparing { upcoming, listen, sealed, .. },
                SessionEvent::PeerCreated { peer },
            ) => Session::prepare(upcoming, listen, sealed, Some(peer)),
            (Session::Preparing { upcoming, listen, sealed, peer, .. }, _) => Session::prepare(
                upcoming,
                listen,
                sealed,
                peer,
            ),
            (Session::Running, SessionEvent::Ran { results }) => SessionProgress::Finished {
                result: session_result(results),
            },
            _ => SessionProgress::Perform {
                session: Session::Running,
                step: SessionStep::RunTasks,
            },
        }
    }
}

/// A session makes a peer exactly if the key is at hand.
pub proof fn law_peer_needs_key<A, C>(temp_dir: bool, key: bool, args: ArgsView<A>, context: C)
    ensures
        ({
            let steps = session_steps(temp_dir, key, args, context);
            &&& key <==> exists|i: int|
                0 <= i < steps.len() && #[trigger] steps[i] is CreatePeer
            &&& key <==> steps.contains(SessionStepView::AddTask { task: Task::Peer })
        }),
{
    let steps = session_steps(temp_dir, key, args, context);
    if key {
        let n = steps.len() as int;
        assert(steps[n - 5] is CreatePeer);
        assert(steps[n - 3] == SessionStepView::<A, C>::AddTask { task: Task::Peer });
    } else {
        assert(steps.len() == 5);
    }
}

/// The configured seeds are followed exactly if there is a peer and no seeds are given as an
/// argument, and given seeds are resolved exactly if there is a peer.
pub proof fn law_given_seeds_take_precedence<A, C>(
    temp_dir: bool,
    key: bool,
    args: ArgsView<A>,
    context: C,
)
    ensures
        ({
            let steps = session_steps(temp_dir, key, args, context);
            &&& steps.contains(SessionStepView::FollowSeeds) <==> key && args.seeds is None
            &&& forall|given: Seq<Text>| #[trigger]
                steps.contains(SessionStepView::ResolveSeeds { seeds: given }) <==> key
                    && args.seeds == Some(given)
        }),
{
    let steps = session_steps(temp_dir, key, args, context);
    if key {
        match args.seeds {
            Some(given) => {
                assert(steps.len() == 9);
                assert(steps[3] == SessionStepView::<A, C>::ResolveSeeds { seeds: given });
            },
            None => {
                assert(steps.len() == 10);
                assert(steps[3] == SessionStepView::<A, C>::FollowSeeds);
            },
        }
    } else {
        assert(steps.len() == 5);
    }
}

/// In every session the store is opened first, a notifier of the shutdown is made after that, a
/// restart can be asked for before anything else runs, and the server is the last task to be added
/// before the tasks run.
pub proof fn law_frame_of_session<A, C>(temp_dir: bool, key: bool, args: ArgsView<A>, context: C)
    ensures
        ({
            let steps = session_steps(temp_dir, key, args, context);
            &&& steps.len() >= 5
            &&& steps[0] == opening_step::<A, C>(temp_dir)
            &&& steps[1] == SessionStepView::<A, C>::MakeNotifier
            &&& steps[2] == SessionStepView::<A, C>::AddTask { task: Task::RestartSignal }
            &&& steps[steps.len() - 2] == SessionStepView::AddTask {
                task: Task::Server { listen: args.http_listen, context },
            }
            &&& steps.last() == SessionStepView::<A, C>::RunTasks
        }),
{
}

/// Whether the failure at a position is the first one.
pub open spec fn first_failure<E>(results: Seq<Result<(), E>>, at: int) -> bool {
    &&& 0 <= at < results.len()
    &&& results[at] is Err
    &&& forall|i: int| 0 <= i < at ==> #[trigger] results[i] is Ok
}

/// A session goes well exactly if all of its tasks do.
pub proof fn law_session_needs_all_tasks<E>(results: Seq<Result<(), E>>)
    ensures
        overall(results) is Ok <==> forall|i: int|
            0 <= i < results.len() ==> #[trigger] results[i] is Ok,
    decreases results.len(),
{
    if results.len() > 0 && results[0] is Ok {
        let rest = results.drop_first();
        law_session_needs_all_tasks(rest);
        if overall(rest) is Ok {
            assert forall|i: int| 0 <= i < results.len() implies #[trigger] results[i] is Ok by {
                if i > 0 {
                    assert(rest[i - 1] is Ok);
                }
            }
        } else {
            let i = choose|i: int| 0 <= i < rest.len() && !(#[trigger] rest[i] is Ok);
            assert(!(results[i + 1] is Ok));
        }
    } else if results.len() > 0 {
        assert(!(results[0] is Ok));
    }
}

/// A session with a failed task ends with the failure of the first one that failed.
pub proof fn law_first_failure_decides<E>(results: Seq<Result<(), E>>, at: int)
    requires
        first_failure(results, at),
    ensures
        overall(results) == results[at],
    decreases results.len(),
{
    if at > 0 {
        assert(results[0] is Ok);
        let rest = results.drop_first();
        assert forall|i: int| 0 <= i < at - 1 implies #[trigger] rest[i] is Ok by {
            assert(results[i + 1] is Ok);
        }
        assert(rest[at - 1] == results[at]);
        law_first_failure_decides(rest, at - 1);
    }
}

/// The steps of a session that goes on from `progress`, where `events` tells how they go, in turn.
pub open spec fn taken<A, D, R, H, N, E>(
    progress: SessionProgressView<A, D, R, H, N, E>,
    events: Seq<SessionEventView<D, R, N, E>>,
) -> Seq<SessionStepView<A, Context<R, D, H, N>>>
    decreases events.len(),
{
    match progress {
        SessionProgressView::Perform { session, step } => if events.len() == 0 {
            seq![step]
        } else {
            seq![step] + taken(next_progress(session, events[0]), events.drop_first())
        },
        _ => seq![],
    }
}

/// Where a session that goes on from `progress` has come to after `events`.
pub open spec fn arrived<A, D, R, H, N, E>(
    progress: SessionProgressView<A, D, R, H, N, E>,
    events: Seq<SessionEventView<D, R, N, E>>,
) -> SessionProgressView<A, D, R, H, N, E>
    decreases events.len(),
{
    match progress {
        SessionProgressView::Perform { session, .. } => if events.len() == 0 {
            progress
        } else {
            arrived(next_progress(session, events[0]), events.drop_first())
        },
        _ => progress,
    }
}

/// Whether an event tells that a step went well.
pub open spec fn step_went_well<A, C, D, R, N, E>(
    step: SessionStepView<A, C>,
    event: SessionEventView<D, R, N, E>,
) -> bool {
    match step {
        SessionStepView::OpenStore { .. } => event is Opened,
        SessionStepView::MakeNotifier => event is NotifierMade,
        SessionStepView::CreatePeer { .. } => event is PeerCreated,
        SessionStepView::RunTasks => event is Ran,
        _ => event is Done,
    }
}

/// At which step the peer is made.
pub open spec fn peer_position<A>(args: ArgsView<A>) -> int {
    if args.seeds is Some {
        4
    } else {
        5
    }
}

/// What the HTTP API works on in a session: the store that the session has opened, the notifier
/// that it has made, the settings and handles that it was given, and its peer if the key is at
/// hand.
pub open spec fn served_context<A, D, R, H, N, E>(
    key: bool,
    args: ArgsView<A>,
    settings: Settings,
    handles: H,
    events: Seq<SessionEventView<D, R, N, E>>,
) -> Context<R, D, H, N> {
    Context::of(
        if key {
            Some(events[peer_position(args)]->peer)
        } else {
            None
        },
        Sealed { store: events[0]->store, settings, handles, shutdown: events[1]->shutdown },
    )
}

/// The steps of a session in which `events` tells how they go.
pub open spec fn steps_of<A, D, R, H, N, E>(
    temp_dir: bool,
    key: bool,
    args: ArgsView<A>,
    settings: Settings,
    handles: H,
    events: Seq<SessionEventView<D, R, N, E>>,
) -> Seq<SessionStepView<A, Context<R, D, H, N>>> {
    session_steps(temp_dir, key, args, served_context(key, args, settings, handles, events))
}

/// Whether all steps went well that `events` tells of.
pub open spec fn all_went_well<A, D, R, H, N, E>(
    temp_dir: bool,
    key: bool,
    args: ArgsView<A>,
    settings: Settings,
    handles: H,
    events: Seq<SessionEventView<D, R, N, E>>,
) -> bool {
    let steps = steps_of(temp_dir, key, args, settings, handles, events);
    &&& events.len() <= steps.len()
    &&& forall|i: int|
        0 <= i < events.len() ==> step_went_well(#[trigger] steps[i], events[i])
}

/// Where a session has come to after so many steps that went well.
#[verifier::opaque]
spec fn progress_at<A, D, R, H, N, E>(
    temp_dir: bool,
    key: bool,
    args: ArgsView<A>,
    settings: Settings,
    handles: H,
    events: Seq<SessionEventView<D, R, N, E>>,
    at: int,
) -> SessionProgressView<A, D, R, H, N, E> {
    let steps = preparing_steps::<A, Context<R, D, H, N>>(key, args);
    let store = events[0]->store;
    if at == 0 {
        first_progress(temp_dir, key, args, settings, handles)
    } else if at == 1 {
        SessionProgressView::Perform {
            session: SessionView::Notifying {
                store,
                settings,
                handles,
                upcoming: steps,
                listen: args.http_listen,
            },
            step: SessionStepView::MakeNotifier,
        }
    } else if at <= steps.len() + 2 {
        preparing(
            steps.skip(at - 2),
            args.http_listen,
            Sealed { store, settings, handles, shutdown: events[1]->shutdown },
            if key && at > peer_position(args) {
                Some(events[peer_position(args)]->peer)
            } else {
                None
            },
        )
    } else if at == steps.len() + 3 {
        SessionProgressView::Perform {
            session: SessionView::Running,
            step: SessionStepView::RunTasks,
        }
    } else {
        SessionProgressView::Finished { result: overall(events.last()->results) }
    }
}

proof fn lemma_next_step<A, D, R, H, N, E>(
    temp_dir: bool,
    key: bool,
    args: ArgsView<A>,
    settings: Settings,
    handles: H,
    events: Seq<SessionEventView<D, R, N, E>>,
    at: int,
)
    requires
        all_went_well(temp_dir, key, args, settings, handles, events),
        0 <= at < events.len(),
    ensures
        ({
            let progress = progress_at(temp_dir, key, args, settings, handles, events, at);
            &&& progress is Perform
            &&& next_progress(progress->session, events[at]) == progress_at(
                temp_dir,
                key,
                args,
                settings,
                handles,
                events,
                at + 1,
            )
        }),
{
    reveal(progress_at);
    let all = steps_of(temp_dir, key, args, settings, handles, events);
    let steps = preparing_steps::<A, Context<R, D, H, N>>(key, args);
    assert(step_went_well(all[at], events[at]));
    if at == 1 {
        assert(steps.skip(0) =~= steps);
    } else if 2 <= at < steps.len() + 2 {
        assert(all[at] == steps[at - 2]);
        assert(steps.skip(at - 2)[0] == steps[at - 2]);
        assert(steps.skip(at - 2).drop_first() =~= steps.skip(at - 1));
    }
}

proof fn lemma_step_at<A, D, R, H, N, E>(
    temp_dir: bool,
    key: bool,
    args: ArgsView<A>,
    settings: Settings,
    handles: H,
    events: Seq<SessionEventView<D, R, N, E>>,
    at: int,
)
    requires
        0 <= at < steps_of(temp_dir, key, args, settings, handles, events).len(),
    ensures
        ({
            let progress = progress_at(temp_dir, key, args, settings, handles, events, at);
            let step = steps_of(temp_dir, key, args, settings, handles, events)[at];
            &&& progress is Perform
            &&& progress->step == step
            &&& progress->session matches SessionView::Preparing { failure, .. } ==> failure
                == step_failure(step)
            &&& !(progress->session is Preparing) ==> step_failure(step) is None
        }),
{
    reveal(progress_at);
    let all = steps_of(temp_dir, key, args, settings, handles, events);
    let steps = preparing_steps::<A, Context<R, D, H, N>>(key, args);
    if 2 <= at < steps.len() + 2 {
        assert(all[at] == steps[at - 2]);
        assert(steps.skip(at - 2)[0] == steps[at - 2]);
    }
}

/// The steps from one on, as long as all go well.
#[verifier::rlimit(40)]
proof fn lemma_taken<A, D, R, H, N, E>(
    temp_dir: bool,
    key: bool,
    args: ArgsView<A>,
    settings: Settings,
    handles: H,
    events: Seq<SessionEventView<D, R, N, E>>,
    from: int,
)
    requires
        all_went_well(temp_dir, key, args, settings, handles, events),
        0 <= from <= events.len(),
    ensures
        ({
            let steps = steps_of(temp_dir, key, args, settings, handles, events);
            let progress = progress_at(temp_dir, key, args, settings, handles, events, from);
            let end = if events.len() < steps.len() {
                events.len() as int + 1
            } else {
                steps.len() as int
            };
            &&& taken(progress, events.skip(from)) == steps.subrange(from, end)
            &&& arrived(progress, events.skip(from)) == progress_at(
                temp_dir,
                key,
                args,
                settings,
                handles,
                events,
                events.len() as int,
            )
        }),
    decreases events.len() - from,
{
    let steps = steps_of(temp_dir, key, args, settings, handles, events);
    let progress = progress_at(temp_dir, key, args, settings, handles, events, from);
    let part = events.skip(from);
    let end = if events.len() < steps.len() {
        events.len() as int + 1
    } else {
        steps.len() as int
    };
    if from < events.len() {
        lemma_next_step(temp_dir, key, args, settings, handles, events, from);
        lemma_step_at(temp_dir, key, args, settings, handles, events, from);
        lemma_taken(temp_dir, key, args, settings, handles, events, from + 1);
        assert(part[0] == events[from]);
        assert(part.drop_first() =~= events.skip(from + 1));
        assert(taken(progress, part) =~= steps.subrange(from, end));
    } else if from < steps.len() {
        lemma_step_at(temp_dir, key, args, settings, handles, events, from);
        assert(taken(progress, part) =~= steps.subrange(from, end));
    } else {
        reveal(progress_at);
        assert(taken(progress, part) =~= steps.subrange(from, end));
    }
}

/// The steps of a session are taken one after the other, each after those before it went well;
/// the first that fails ends the session, and what is said of the failure is what belongs to
/// that step.
pub proof fn law_steps_in_order<A, D, R, H, N, E>(
    temp_dir: bool,
    key: bool,
    args: ArgsView<A>,
    settings: Settings,
    handles: H,
    events: Seq<SessionEventView<D, R, N, E>>,
    error: E,
)
    requires
        all_went_well(temp_dir, key, args, settings, handles, events),
        events.len() < steps_of(temp_dir, key, args, settings, handles, events).len(),
    ensures
        ({
            let steps = steps_of(temp_dir, key, args, settings, handles, events);
            let start = first_progress::<A, D, R, H, N, E>(temp_dir, key, args, settings, handles);
            let last = arrived(start, events);
            &&& taken(start, events) == steps.take(events.len() as int + 1)
            &&& last is Perform
            &&& next_progress(last->session, SessionEventView::Failed(error))
                == (SessionProgressView::<A, D, R, H, N, E>::Failed {
                context: step_failure(steps[events.len() as int]),
                error,
            })
        }),
{
    reveal(progress_at);
    lemma_taken(temp_dir, key, args, settings, handles, events, 0);
    lemma_step_at(temp_dir, key, args, settings, handles, events, events.len() as int);
    assert(events.skip(0) =~= events);
}

/// A session ends as its tasks decide, once all of its steps went well, and then it has taken all
/// of them.
pub proof fn law_tasks_decide<A, D, R, H, N, E>(
    temp_dir: bool,
    key: bool,
    args: ArgsView<A>,
    settings: Settings,
    handles: H,
    events: Seq<SessionEventView<D, R, N, E>>,
)
    requires
        all_went_well(temp_dir, key, args, settings, handles, events),
        events.len() == steps_of(temp_dir, key, args, settings, handles, events).len(),
    ensures
        ({
            let start = first_progress::<A, D, R, H, N, E>(temp_dir, key, args, settings, handles);
            &&& taken(start, events) == steps_of(temp_dir, key, args, settings, handles, events)
            &&& arrived(start, events) == (SessionProgressView::<A, D, R, H, N, E>::Finished {
                result: overall(events.last()->results),
            })
        }),
{
    let steps = steps_of(temp_dir, key, args, settings, handles, events);
    reveal(progress_at);
    lemma_taken(temp_dir, key, args, settings, handles, events, 0);
    assert(events.skip(0) =~= events);
    assert(steps.subrange(0, steps.len() as int) =~= steps);
}

/// A server is started in a session with nothing but what belongs to the session: the handles and
/// settings that it was given, the store that it has opened, the notifier that it has made, and
/// the peer that it has made, if there is one.
pub proof fn law_server_works_on_session<A, D, R, H, N, E>(
    temp_dir: bool,
    key: bool,
    args: ArgsView<A>,
    settings: Settings,
    handles: H,
    events: Seq<SessionEventView<D, R, N, E>>,
    at: int,
)
    requires
        all_went_well(temp_dir, key, args, settings, handles, events),
        0 <= at <= events.len(),
        at < steps_of(temp_dir, key, args, settings, handles, events).len(),
    ensures
        ({
            let start = first_progress::<A, D, R, H, N, E>(temp_dir, key, args, settings, handles);
            let step = taken(start, events)[at];
            step matches SessionStepView::AddTask { task } ==> (task matches Task::Server {
                listen,
                context,
            } ==> {
                &&& listen == args.http_listen
                &&& context.sealed_part().handles == handles
                &&& context.sealed_part().settings == settings
                &&& events[0] == (SessionEventView::<D, R, N, E>::Opened {
                    store: context.sealed_part().store,
                })
                &&& events[1] == (SessionEventView::<D, R, N, E>::NotifierMade {
                    shutdown: context.sealed_part().shutdown,
                })
                &&& key <==> context is Unsealed
                &&& key ==> events[peer_position(args)] == (SessionEventView::<
                    D,
                    R,
                    N,
                    E,
                >::PeerCreated { peer: context->Unsealed_0.peer })
            })
        }),
{
    let steps = steps_of(temp_dir, key, args, settings, handles, events);
    reveal(progress_at);
    lemma_taken(temp_dir, key, args, settings, handles, events, 0);
    assert(events.skip(0) =~= events);
    let start = first_progress::<A, D, R, H, N, E>(temp_dir, key, args, settings, handles);
    assert(taken(start, events)[at] == steps[at]);
    let preparing = preparing_steps::<A, Context<R, D, H, N>>(key, args);
    if at == preparing.len() + 2 {
        assert(step_went_well(steps[0], events[0]));
        assert(step_went_well(steps[1], events[1]));
        if key {
            assert(steps[peer_position(args)] is CreatePeer);
            assert(step_went_well(steps[peer_position(args)], events[peer_position(args)]));
        }
    } else if 2 <= at < preparing.len() + 2 {
        assert(steps[at] == preparing[at - 2]);
    }
}

/// Steps, events and progress are seen as they are.
pub proof fn law_views_of_steps<A, C, D, R, N, E>(
    location: StoreLocation,
    step: SessionStep<A, C>,
    event: SessionEvent<D, R, N, E>,
)
    ensures
        match location {
            StoreLocation::TempDir { name } => location@ == (StoreLocationView::TempDir {
                name: name@,
            }),
            StoreLocation::Profile => location@ == StoreLocationView::Profile,
        },
        match step {
            SessionStep::OpenStore { location, flush_millis } => step.deep_view() == (
            SessionStepView::<A, C>::OpenStore { location: location@, flush_millis }),
            SessionStep::MakeNotifier => step.deep_view() is MakeNotifier,
            SessionStep::ResolveSeeds { seeds } => step.deep_view() == (SessionStepView::<
                A,
                C,
            >::ResolveSeeds { seeds: seeds.deep_view() }),
            SessionStep::FollowSeeds => step.deep_view() is FollowSeeds,
            SessionStep::CreatePeer { listen } => step.deep_view() == (SessionStepView::<
                A,
                C,
            >::CreatePeer { listen }),
            SessionStep::LogPeerEvents => step.deep_view() is LogPeerEvents,
            SessionStep::AddTask { task } => step.deep_view() == (SessionStepView::<
                A,
                C,
            >::AddTask { task }),
            SessionStep::RunTasks => step.deep_view() is RunTasks,
        },
        match event {
            SessionEvent::Done => event@ is Done,
            SessionEvent::Opened { store } => event@ == (SessionEventView::<
                D,
                R,
                N,
                E,
            >::Opened { store }),
            SessionEvent::NotifierMade { shutdown } => event@ == (SessionEventView::<
                D,
                R,
                N,
                E,
            >::NotifierMade { shutdown }),
            SessionEvent::PeerCreated { peer } => event@ == (SessionEventView::<
                D,
                R,
                N,
                E,
            >::PeerCreated { peer }),
            SessionEvent::Ran { results } => event@ == (SessionEventView::<
                D,
                R,
                N,
                E,
            >::Ran { results: results@ }),
            SessionEvent::Failed(error) => event@ == SessionEventView::<D, R, N, E>::Failed(error),
        },
{
}

/// A session that is under way, and what follows, are seen as they are.
pub proof fn law_views_of_progress<A, D, R, H, N, E>(
    session: Session<A, D, R, H, N>,
    progress: SessionProgress<A, D, R, H, N, E>,
)
    ensures
        match session {
            Session::Opening { settings, handles, upcoming, listen } => session@ == (SessionView::<
                A,
                D,
                R,
                H,
                N,
            >::Opening { settings, handles, upcoming: upcoming.deep_view(), listen }),
            Session::Notifying { store, settings, handles, upcoming, listen } => session@ == (
            SessionView::<A, D, R, H, N>::Notifying {
                store,
                settings,
                handles,
                upcoming: upcoming.deep_view(),
                listen,
            }),
            Session::Preparing { failure, creating, upcoming, listen, sealed, peer } => session@
                == (SessionView::<A, D, R, H, N>::Preparing {
                failure: failure.deep_view(),
                creating,
                upcoming: upcoming.deep_view(),
                listen,
                sealed,
                peer,
            }),
            Session::Serving => session@ is Serving,
            Session::Running => session@ is Running,
        },
        match progress {
            SessionProgress::Perform { session, step } => progress@ == (SessionProgressView::<
                A,
                D,
                R,
                H,
                N,
                E,
            >::Perform { session: session@, step: step.deep_view() }),
            SessionProgress::Finished { result } => progress@ == (SessionProgressView::<
                A,
                D,
                R,
                H,
                N,
                E,
            >::Finished { result }),
            SessionProgress::Failed { context, error } => progress@ == (SessionProgressView::<
                A,
                D,
                R,
                H,
                N,
                E,
            >::Failed { context: context.deep_view(), error }),
        },
{
}

/// The HTTP API learns of tests from the environment and of all else from the arguments.
pub proof fn law_settings<A, K, P>(environment: Environment<K, P>, args: Args<A>)
    ensures
        session_settings(environment, args).insecure_http_api == args.insecure_http_api,
        session_settings(environment, args).test == environment.test_mode,
        session_settings(environment, args).default_seeds == args.default_seeds,
        session_settings(environment, args).seeds == args.seeds,
{
}

/// What the HTTP API works on holds the peer exactly if there is one, and all the rest in either
/// case.
pub proof fn law_context<R, D, H, N>(peer: Option<R>, sealed: Sealed<D, H, N>)
    ensures
        Context::of(peer, sealed) is Unsealed <==> peer is Some,
        peer matches Some(peer) ==> Context::of(Some(peer), sealed)->Unsealed_0.peer == peer,
        peer matches Some(peer) ==> Context::of(Some(peer), sealed)->Unsealed_0.rest == sealed,
        peer is None ==> Context::of(peer, sealed)->Sealed_0 == sealed,
        Context::of(peer, sealed).sealed_part() == sealed,
{
}

/// A session opens its store in the temporary directory under the name `store`, if there is one,
/// and otherwise in the place for the profile, and it is written every 100 milliseconds. Then come
/// the notifier and the restart signal. With the key, the seeds that are given are resolved, all of
/// them, and otherwise the configured ones are followed; then the peer is made, to listen where
/// peers do, its events are logged and it is added. Without the key there is no peer. Last the
/// server is added, to listen where the HTTP API does, and the tasks run.
pub proof fn law_steps_of_session<A, C>(temp_dir: bool, key: bool, args: ArgsView<A>, context: C)
    ensures
        ({
            let steps = session_steps(temp_dir, key, args, context);
            let n = steps.len() as int;
            let found: int = if args.seeds is Some {
                4
            } else {
                5
            };
            &&& n == if !key {
                5
            } else {
                found + 5
            }
            &&& steps[0] == (SessionStepView::<A, C>::OpenStore {
                location: if temp_dir {
                    StoreLocationView::TempDir { name: "store"@ }
                } else {
                    StoreLocationView::Profile
                },
                flush_millis: 100,
            })
            &&& steps[1] == SessionStepView::<A, C>::MakeNotifier
            &&& steps[2] == (SessionStepView::<A, C>::AddTask { task: Task::RestartSignal })
            &&& key ==> {
                &&& args.seeds matches Some(given) ==> steps[3] == (SessionStepView::<
                    A,
                    C,
                >::ResolveSeeds { seeds: given })
                &&& args.seeds is None ==> steps[3] == SessionStepView::<A, C>::FollowSeeds
                    && steps[4] == (SessionStepView::<A, C>::AddTask { task: Task::SeedWatch })
                &&& steps[found] == (SessionStepView::<A, C>::CreatePeer {
                    listen: args.peer_listen,
                })
                &&& steps[found + 1] == SessionStepView::<A, C>::LogPeerEvents
                &&& steps[found + 2] == (SessionStepView::<A, C>::AddTask { task: Task::Peer })
            }
            &&& steps[n - 2] == (SessionStepView::<A, C>::AddTask {
                task: Task::Server { listen: args.http_listen, context },
            })
            &&& steps[n - 1] == SessionStepView::<A, C>::RunTasks
        }),
{
}

/// A failure is told with what failed: resolving the seeds, the peer or the server. Of any other
/// failure nothing is added.
pub proof fn law_failures_are_named<A, C>(step: SessionStepView<A, C>, task: Task<A, C>)
    ensures
        step_failure(step) is Some <==> step is ResolveSeeds,
        step_failure(step) matches Some(text) ==> text == "failed to parse and resolve seeds"@,
        task_failure(task) is Some <==> task is Peer || task is Server,
        task is Peer ==> task_failure(task) == Some("failed to run peer"@),
        task is Server ==> task_failure(task) == Some("server failed"@),
        told_of_shutdown(task) <==> task is Peer || task is Server,
{
}

/// A session starts with opening the store and remembers what it was given.
pub proof fn law_start_of_session<A, D, R, H, N, E>(
    temp_dir: bool,
    key: bool,
    args: ArgsView<A>,
    settings: Settings,
    handles: H,
    context: Context<R, D, H, N>,
)
    ensures
        ({
            let start = first_progress::<A, D, R, H, N, E>(temp_dir, key, args, settings, handles);
            let steps = session_steps(temp_dir, key, args, context);
            &&& start is Perform
            &&& start->step == steps[0]
            &&& start->session == (SessionView::<A, D, R, H, N>::Opening {
                settings,
                handles,
                upcoming: steps.subrange(2, steps.len() - 2),
                listen: args.http_listen,
            })
        }),
{
    let steps = session_steps(temp_dir, key, args, context);
    assert(steps.subrange(2, steps.len() - 2) =~= preparing_steps(key, args));
}

/// The store and the notifier that the session has made are kept for the server, and the peer that
/// it has made as well. The server is added once nothing else is to be prepared, with what was kept,
/// and then the tasks run, whose results decide.
pub proof fn law_session_keeps_what_it_makes<A, D, R, H, N, E>(
    store: D,
    settings: Settings,
    handles: H,
    shutdown: N,
    peer: Option<R>,
    created: R,
    listen: A,
    upcoming: Seq<SessionStepView<A, Context<R, D, H, N>>>,
    failure: Option<Text>,
    results: Seq<Result<(), E>>,
)
    ensures
        ({
            let sealed = Sealed { store, settings, handles, shutdown };
            let kept = |creating: bool| SessionView::<A, D, R, H, N>::Preparing {
                failure,
                creating,
                upcoming,
                listen,
                sealed,
                peer,
            };
            let first = next_progress::<A, D, R, H, N, E>(
                SessionView::Notifying { store, settings, handles, upcoming, listen },
                SessionEventView::NotifierMade { shutdown },
            );
            let later = next_progress::<A, D, R, H, N, E>(kept(false), SessionEventView::Done);
            let peered = next_progress::<A, D, R, H, N, E>(
                kept(true),
                SessionEventView::PeerCreated { peer: created },
            );
            &&& next_progress::<A, D, R, H, N, E>(
                SessionView::Opening { settings, handles, upcoming, listen },
                SessionEventView::Opened { store },
            ) == (SessionProgressView::<A, D, R, H, N, E>::Perform {
                session: SessionView::Notifying { store, settings, handles, upcoming, listen },
                step: SessionStepView::MakeNotifier,
            })
            &&& upcoming.len() > 0 ==> {
                &&& first->step == upcoming[0] && later->step == upcoming[0] && peered->step
                    == upcoming[0]
                &&& first->session == (SessionView::<A, D, R, H, N>::Preparing {
                    failure: step_failure(upcoming[0]),
                    creating: upcoming[0] is CreatePeer,
                    upcoming: upcoming.skip(1),
                    listen,
                    sealed,
                    peer: None,
                })
                &&& later->session == (SessionView::<A, D, R, H, N>::Preparing {
                    failure: step_failure(upcoming[0]),
                    creating: upcoming[0] is CreatePeer,
                    upcoming: upcoming.skip(1),
                    listen,
                    sealed,
                    peer,
                })
                &&& peered->session == (SessionView::<A, D, R, H, N>::Preparing {
                    failure: step_failure(upcoming[0]),
                    creating: upcoming[0] is CreatePeer,
                    upcoming: upcoming.skip(1),
                    listen,
                    sealed,
                    peer: Some(created),
                })
            }
            &&& upcoming.len() == 0 ==> {
                &&& later == (SessionProgressView::<A, D, R, H, N, E>::Perform {
                    session: SessionView::Serving,
                    step: SessionStepView::AddTask {
                        task: Task::Server { listen, context: Context::of(peer, sealed) },
                    },
                })
                &&& peered == (SessionProgressView::<A, D, R, H, N, E>::Perform {
                    session: SessionView::Serving,
                    step: SessionStepView::AddTask {
                        task: Task::Server { listen, context: Context::of(Some(created), sealed) },
                    },
                })
            }
            &&& next_progress::<A, D, R, H, N, E>(SessionView::Serving, SessionEventView::Done)
                == (SessionProgressView::<A, D, R, H, N, E>::Perform {
                session: SessionView::Running,
                step: SessionStepView::RunTasks,
            })
            &&& next_progress::<A, D, R, H, N, E>(
                SessionView::Running,
                SessionEventView::Ran { results },
            ) == (SessionProgressView::<A, D, R, H, N, E>::Finished { result: overall(results) })
        }),
{
    if upcoming.len() > 0 {
        assert(upcoming.drop_first() =~= upcoming.skip(1));
    }
}

/// A failed step ends the session with its error, and with what is said of that step.
pub proof fn law_failed_step_is_told<A, D, R, H, N, E>(
    session: SessionView<A, D, R, H, N>,
    error: E,
)
    ensures
        next_progress::<A, D, R, H, N, E>(session, SessionEventView::Failed(error)) == (
        SessionProgressView::<A, D, R, H, N, E>::Failed {
            context: match session {
                SessionView::Preparing { failure, .. } => failure,
                _ => None,
            },
            error,
        }),
{
}

} // verus!
