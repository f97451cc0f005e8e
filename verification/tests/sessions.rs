use upstream::process::Args;
use upstream::session::{
    run_session, session_result, Context, Environment, Handles, Sealed, SessionEvent,
    SessionProgress, SessionStep, Settings, StoreLocation, Task,
};

fn args(seeds: Option<Vec<String>>) -> Args<&'static str> {
    Args {
        test: false,
        unsafe_fast_keystore: false,
        identity_key: None,
        key_passphrase: None,
        insecure_http_api: true,
        default_seeds: vec!["default".to_string()],
        seeds,
        http_listen: "http",
        peer_listen: "peer",
        dev_log: false,
    }
}

type Given = Handles<u8, &'static str, &'static str, &'static str>;
type Served = Context<&'static str, &'static str, Given, &'static str>;
type Step = SessionStep<&'static str, Served>;
type Event = SessionEvent<&'static str, &'static str, &'static str, &'static str>;
type Progress = SessionProgress<
    &'static str,
    &'static str,
    &'static str,
    Given,
    &'static str,
    &'static str,
>;

fn start(key: bool, temp_dir: bool, seeds: Option<&[&str]>) -> Progress {
    let seeds = seeds.map(|seeds| seeds.iter().map(|seed| seed.to_string()).collect());
    let environment =
        Environment { temp_dir, test_mode: true, key, keystore: "keystore", paths: "paths" };
    run_session(7, environment, "token", args(seeds))
}

fn describe(step: &Step) -> String {
    match step {
        SessionStep::OpenStore { location: StoreLocation::TempDir { name }, flush_millis } => {
            format!("open {} {}", name, flush_millis)
        },
        SessionStep::OpenStore { location: StoreLocation::Profile, flush_millis } => {
            format!("open profile {}", flush_millis)
        },
        SessionStep::MakeNotifier => "make notifier".to_string(),
        SessionStep::ResolveSeeds { seeds } => format!("resolve {}", seeds.join(" ")),
        SessionStep::FollowSeeds => "follow seeds".to_string(),
        SessionStep::CreatePeer { listen } => format!("create peer on {}", listen),
        SessionStep::LogPeerEvents => "log peer events".to_string(),
        SessionStep::AddTask { task: Task::RestartSignal } => "add restart signal".to_string(),
        SessionStep::AddTask { task: Task::SeedWatch } => "add seed watch".to_string(),
        SessionStep::AddTask { task: Task::Peer } => "add peer".to_string(),
        SessionStep::AddTask { task: Task::Server { listen, .. } } => {
            format!("add server on {}", listen)
        },
        SessionStep::RunTasks => "run".to_string(),
    }
}

/// Tells that a step went well.
fn well(step: &Step) -> Event {
    match step {
        SessionStep::OpenStore { .. } => SessionEvent::Opened { store: "store" },
        SessionStep::MakeNotifier => SessionEvent::NotifierMade { shutdown: "notifier" },
        SessionStep::CreatePeer { .. } => SessionEvent::PeerCreated { peer: "peer" },
        SessionStep::RunTasks => SessionEvent::Ran { results: vec![] },
        _ => SessionEvent::Done,
    }
}

fn all_steps(mut progress: Progress) -> Vec<Step> {
    let mut steps = vec![];
    loop {
        progress = match progress {
            SessionProgress::Perform { session, step } => {
                let event = well(&step);
                steps.push(step);
                session.next(event)
            },
            SessionProgress::Finished { result } => {
                assert_eq!(result, Ok(()));
                return steps;
            },
            failed => panic!("{:?}", failed),
        };
    }
}

fn steps(progress: Progress) -> Vec<String> {
    all_steps(progress).iter().map(describe).collect()
}

fn served(progress: Progress) -> Served {
    for step in all_steps(progress) {
        if let SessionStep::AddTask { task: Task::Server { context, .. } } = step {
            return context;
        }
    }
    panic!("no server")
}

/// Takes steps until one of the given kind is to be taken, and lets that one go as given.
fn end_at(kind: &str, mut progress: Progress, event: Event) -> Progress {
    loop {
        progress = match progress {
            SessionProgress::Perform { session, step } => {
                if describe(&step).starts_with(kind) {
                    return session.next(event);
                }
                let event = well(&step);
                session.next(event)
            },
            ended => panic!("{:?}", ended),
        };
    }
}

#[test]
fn session_without_key_only_serves() {
    assert_eq!(
        steps(start(false, false, Some(&["a"]))),
        [
            "open profile 100",
            "make notifier",
            "add restart signal",
            "add server on http",
            "run"
        ]
    );
}

#[test]
fn session_with_key_follows_the_configured_seeds() {
    assert_eq!(
        steps(start(true, true, None)),
        [
            "open store 100",
            "make notifier",
            "add restart signal",
            "follow seeds",
            "add seed watch",
            "create peer on peer",
            "log peer events",
            "add peer",
            "add server on http",
            "run"
        ]
    );
}

#[test]
fn given_seeds_take_precedence() {
    assert_eq!(
        steps(start(true, false, Some(&["a", "b"]))),
        [
            "open profile 100",
            "make notifier",
            "add restart signal",
            "resolve a b",
            "create peer on peer",
            "log peer events",
            "add peer",
            "add server on http",
            "run"
        ]
    );
}

fn check_sealed(sealed: &Sealed<&'static str, Given, &'static str>) {
    assert!(sealed.settings.insecure_http_api);
    assert!(sealed.settings.test);
    assert_eq!(sealed.settings.default_seeds, ["default"]);
    assert_eq!(sealed.settings.seeds, Some(vec!["a".to_string()]));
    assert_eq!(sealed.handles.service_handle, 7);
    assert_eq!(sealed.handles.auth_token, "token");
    assert_eq!(sealed.handles.keystore, "keystore");
    assert_eq!(sealed.handles.paths, "paths");
    assert_eq!(sealed.store, "store");
    assert_eq!(sealed.shutdown, "notifier");
}

#[test]
fn server_works_on_what_belongs_to_the_session() {
    match served(start(false, false, Some(&["a"]))) {
        Context::Sealed(sealed) => check_sealed(&sealed),
        context => panic!("{:?}", context),
    }
    match served(start(true, false, Some(&["a"]))) {
        Context::Unsealed(unsealed) => {
            assert_eq!(unsealed.peer, "peer");
            check_sealed(&unsealed.rest);
        },
        context => panic!("{:?}", context),
    }
}

#[test]
fn peer_and_server_are_told_of_the_shutdown() {
    assert!(Task::<(), ()>::Peer.takes_shutdown());
    assert!(Task::Server { listen: (), context: () }.takes_shutdown());
    assert!(!Task::<(), ()>::RestartSignal.takes_shutdown());
    assert!(!Task::<(), ()>::SeedWatch.takes_shutdown());
}

#[test]
fn failures_say_what_failed() {
    assert_eq!(Task::<(), ()>::Peer.failure(), Some("failed to run peer".to_string()));
    assert_eq!(Task::Server { listen: (), context: () }.failure(), Some("server failed".to_string()));
    assert_eq!(Task::<(), ()>::SeedWatch.failure(), None);
    let resolve = SessionStep::<(), ()>::ResolveSeeds { seeds: vec![] };
    assert_eq!(resolve.failure(), Some("failed to parse and resolve seeds".to_string()));
    assert_eq!(SessionStep::<(), ()>::RunTasks.failure(), None);
}

#[test]
fn failed_step_ends_the_session() {
    match end_at("resolve", start(true, false, Some(&["a"])), SessionEvent::Failed("no such host")) {
        SessionProgress::Failed { context, error } => {
            assert_eq!(context, Some("failed to parse and resolve seeds".to_string()));
            assert_eq!(error, "no such host");
        },
        progress => panic!("{:?}", progress),
    }
    match end_at("create peer", start(true, false, None), SessionEvent::Failed("no port")) {
        SessionProgress::Failed { context, error } => {
            assert_eq!(context, None);
            assert_eq!(error, "no port");
        },
        progress => panic!("{:?}", progress),
    }
}

#[test]
fn tasks_decide_how_the_session_ends() {
    let results = vec![Ok(()), Err("server"), Err("peer")];
    match end_at("run", start(true, false, None), SessionEvent::Ran { results }) {
        SessionProgress::Finished { result } => assert_eq!(result, Err("server")),
        progress => panic!("{:?}", progress),
    }
}

#[test]
fn first_failure_is_the_result() {
    assert_eq!(session_result::<&str>(vec![]), Ok(()));
    assert_eq!(session_result::<&str>(vec![Ok(()), Ok(())]), Ok(()));
    assert_eq!(session_result(vec![Ok(()), Err("first"), Err("second")]), Err("first"));
}

#[test]
fn context_is_unsealed_with_a_peer() {
    let sealed = || Sealed {
        store: "store",
        settings: Settings {
            insecure_http_api: false,
            test: false,
            default_seeds: vec![],
            seeds: None,
        },
        handles: "handles",
        shutdown: "notifier",
    };
    let with_peer = Context::new(Some("peer"), sealed());
    assert!(matches!(&with_peer, Context::Unsealed(unsealed) if unsealed.peer == "peer"));
    assert_eq!(*with_peer.shutdown(), "notifier");
    let without_peer = Context::<&str, &str, &str, &str>::new(None, sealed());
    assert!(matches!(without_peer, Context::Sealed(_)));
    assert_eq!(*without_peer.shutdown(), "notifier");
}
