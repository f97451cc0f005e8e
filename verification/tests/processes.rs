use upstream::process::{run, Args, Run, RunAction, RunEvent, RunStep};

fn args(key_passphrase: Option<&str>) -> Args<&'static str> {
    Args {
        test: true,
        unsafe_fast_keystore: false,
        identity_key: Some("/keys/id".to_string()),
        key_passphrase: key_passphrase.map(|passphrase| passphrase.to_string()),
        insecure_http_api: false,
        default_seeds: vec![],
        seeds: None,
        http_listen: "127.0.0.1:17246",
        peer_listen: "0.0.0.0:0",
        dev_log: false,
    }
}

type Process = Run<&'static str, u32, Vec<String>>;
type Action = RunAction<&'static str, u32, char, Vec<String>>;
type Event = RunEvent<u32, char, Vec<String>, String>;
type Step = RunStep<&'static str, u32, char, Vec<String>, String>;

fn name(action: &Action) -> String {
    match action {
        RunAction::SetUpLogging { .. } => "logging".to_string(),
        RunAction::CreateManager { .. } => "manager".to_string(),
        RunAction::UnsealKeystore { .. } => "unseal".to_string(),
        RunAction::InstallSignalHandlers => "signals".to_string(),
        RunAction::MakeTokenCell { .. } => "cell".to_string(),
        RunAction::Subscribe => "subscribe".to_string(),
        RunAction::LoadEnvironment => "environment".to_string(),
        RunAction::RunSession { subscription, environment, .. } => {
            format!("session {} {}", subscription, environment)
        },
    }
}

fn start(key_passphrase: Option<&str>, unix: bool) -> Step {
    run(args(key_passphrase), unix)
}

fn performing(step: Step) -> (Process, Action) {
    match step {
        RunStep::Perform { run, action } => (run, action),
        step => panic!("{:?}", step),
    }
}

/// Tells that all goes well; subscriptions are numbered and environments are lettered.
struct World {
    subscriptions: u32,
    environments: Vec<char>,
}

impl World {
    fn new(environments: &str) -> World {
        World { subscriptions: 0, environments: environments.chars().rev().collect() }
    }

    fn event(&mut self, action: &Action) -> Event {
        match action {
            RunAction::MakeTokenCell { token } => {
                RunEvent::CellMade { cell: token.iter().cloned().collect() }
            },
            RunAction::Subscribe => {
                self.subscriptions += 1;
                RunEvent::Subscribed { subscription: self.subscriptions }
            },
            RunAction::LoadEnvironment => match self.environments.pop() {
                Some(environment) => RunEvent::Loaded { environment },
                None => RunEvent::ShutDown,
            },
            _ => RunEvent::Done,
        }
    }
}

/// Goes on for a number of actions, or until the end.
fn go_on(mut step: Step, count: usize, environments: &str) -> (Vec<String>, Step) {
    let mut world = World::new(environments);
    let mut names = vec![];
    while names.len() < count && matches!(step, RunStep::Perform { .. }) {
        let (run, action) = performing(step);
        names.push(name(&action));
        step = run.next(world.event(&action));
    }
    (names, step)
}

fn names(key_passphrase: Option<&str>, unix: bool, count: usize) -> Vec<String> {
    go_on(start(key_passphrase, unix), count, "abc").0
}

#[test]
fn sessions_follow_the_preparation() {
    assert_eq!(
        names(Some("secret"), true, 11),
        [
            "logging", "manager", "unseal", "signals", "cell", "subscribe", "environment",
            "session 1 a", "subscribe", "environment", "session 2 b"
        ]
    );
}

#[test]
fn keystore_is_unsealed_with_a_passphrase_only() {
    assert_eq!(names(None, true, 4), ["logging", "manager", "signals", "cell"]);
}

#[test]
fn signal_handlers_are_installed_on_unix_only() {
    assert_eq!(names(Some("secret"), false, 4), ["logging", "manager", "unseal", "cell"]);
    assert_eq!(names(None, false, 3), ["logging", "manager", "cell"]);
}

#[test]
fn manager_is_made_from_the_arguments() {
    let (run, _) = performing(start(None, true));
    match performing(run.next(RunEvent::Done)).1 {
        RunAction::CreateManager { config } => {
            assert!(config.test_mode);
            assert!(!config.unsafe_fast_keystore);
            assert_eq!(config.identity_key, Some("/keys/id".to_string()));
        },
        action => panic!("{:?}", action),
    }
}

#[test]
fn passphrase_is_handed_over_in_secret() {
    let (run, _) = performing(start(Some("open sesame"), true));
    let (run, _) = performing(run.next(RunEvent::Done));
    match performing(run.next(RunEvent::Done)).1 {
        RunAction::UnsealKeystore { passphrase } => {
            assert_eq!(passphrase.unsecure(), "open sesame");
            assert_eq!(format!("{:?}", passphrase), "***SECRET***");
        },
        action => panic!("{:?}", action),
    }
}

#[test]
fn each_environment_has_one_session() {
    let (names, step) = go_on(start(None, false), 100, "xyz");
    assert_eq!(
        names,
        [
            "logging", "manager", "cell", "subscribe", "environment", "session 1 x", "subscribe",
            "environment", "session 2 y", "subscribe", "environment", "session 3 z", "subscribe",
            "environment"
        ]
    );
    assert!(matches!(step, RunStep::Finished));
}

#[test]
fn process_ends_without_an_environment() {
    let (names, step) = go_on(start(None, true), 100, "");
    assert_eq!(names, ["logging", "manager", "signals", "cell", "subscribe", "environment"]);
    assert!(matches!(step, RunStep::Finished));
}

#[test]
fn sessions_get_the_arguments_of_the_process() {
    let mut given = args(Some("secret"));
    given.insecure_http_api = true;
    given.default_seeds = vec!["d".to_string()];
    given.seeds = Some(vec!["s".to_string(), "t".to_string()]);
    given.dev_log = true;
    let expected = format!("{:?}", given);
    let mut step = run(given, true);
    let mut world = World::new("ab");
    let mut sessions = 0;
    while let RunStep::Perform { run, action } = step {
        let event = world.event(&action);
        match action {
            RunAction::SetUpLogging { dev_log } => assert!(dev_log),
            RunAction::RunSession { args, .. } => {
                assert_eq!(format!("{:?}", args), expected);
                sessions += 1;
            },
            _ => {},
        }
        step = run.next(event);
    }
    assert_eq!(sessions, 2);
}

#[test]
fn failure_ends_the_process() {
    for done in 0..8 {
        let (_, step) = go_on(start(Some("secret"), true), done, "abc");
        match performing(step).0.next(Event::Failed("broken".to_string())) {
            RunStep::Failed(error) => assert_eq!(error, "broken"),
            step => panic!("{:?}", step),
        }
    }
}

#[test]
fn all_sessions_share_the_cell_for_the_token() {
    let mut step = start(None, true);
    let mut world = World::new("abc");
    let mut cells = vec![];
    while let RunStep::Perform { run, action } = step {
        let event = world.event(&action);
        match action {
            RunAction::MakeTokenCell { token } => assert_eq!(token, None),
            RunAction::RunSession { auth_token, .. } => cells.push(auth_token),
            _ => {},
        }
        step = run.next(event);
    }
    assert_eq!(cells.len(), 3);
    assert!(cells[0].is_empty());
    assert!(std::sync::Arc::ptr_eq(&cells[0], &cells[1]));
    assert!(std::sync::Arc::ptr_eq(&cells[0], &cells[2]));
}
