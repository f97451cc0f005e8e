use upstream::error::{BranchError, CommandError, Report};
use upstream::git::{patch_tag_name, GitCommand, Stdout};
use upstream::handle::{HandleParts, PatchHandle};
use upstream::patch::{
    branch_of_output, create_or_update_patch, get_current_branch_name, Command, Event, Flow,
    Options, PatchCommand, Program, Publication, Step,
};

fn start(command: PatchCommand, rad_home: Option<&str>) -> Step {
    let program = Program {
        command: Command::Patch { command },
        options: Options { rad_home: rad_home.map(|home| home.to_string()) },
    };
    program.run()
}

fn exited(success: bool, stdout: &[u8]) -> Event {
    Event::Exited { success, status: "ExitStatus(unix_wait_status(256))".to_string(), stdout: stdout.to_vec() }
}

fn spawn_failed() -> Event {
    Event::SpawnFailed { cause: "No such file or directory (os error 2)".to_string() }
}

fn running(step: Step) -> (Flow, GitCommand) {
    match step {
        Step::Run { flow, command } => (flow, command),
        step => panic!("not running: {:?}", step),
    }
}

fn failed(step: Step) -> CommandError {
    match step {
        Step::Fail { error } => error,
        step => panic!("not failed: {:?}", step),
    }
}

fn report(step: Step) -> Report {
    failed(step).report()
}

fn causes(step: Step) -> Vec<String> {
    match report(step) {
        Report::Causes(causes) => causes,
        report => panic!("no causes: {:?}", report),
    }
}

fn message(step: Step) -> String {
    match report(step) {
        Report::Message(message) => message,
        report => panic!("no message: {:?}", report),
    }
}

fn handle() -> PatchHandle {
    PatchHandle { peer_id: "hyb".to_string(), name: "feature/x".to_string() }
}

#[test]
fn create_asks_for_the_branch_then_tags_then_pushes() {
    let step = start(PatchCommand::Create { message: Some("My patch".to_string()) }, Some("/rad"));
    let (flow, command) = running(step);
    assert_eq!(command.args, ["branch", "--show-current"]);
    assert_eq!(command.env, None);
    assert_eq!(command.stdout, Stdout::Captured);

    let (flow, command) = running(flow.next(exited(true, b"feature\n")));
    assert_eq!(
        command.args,
        ["tag", "--annotate", "--force", "--message", "My patch", "radicle-patch/feature"]
    );
    assert_eq!(command.env, None);
    assert_eq!(command.stdout, Stdout::Inherited);

    let (flow, command) = running(flow.next(exited(true, b"")));
    assert_eq!(command.args, ["push", "--force", "rad", "tag", "radicle-patch/feature"]);
    assert_eq!(command.env, Some(("RAD_HOME".to_string(), "/rad".to_string())));
    assert_eq!(command.stdout, Stdout::Inherited);

    match flow.next(exited(true, b"")) {
        Step::Succeed { line } => assert_eq!(line, Some("Created patch feature".to_string())),
        step => panic!("not done: {:?}", step),
    }
}

#[test]
fn update_differs_from_create_in_the_last_line_only() {
    let (flow, first) = running(start(PatchCommand::Update { message: None }, None));
    assert_eq!(first.args, ["branch", "--show-current"]);
    let (flow, second) = running(flow.next(exited(true, b"feature\n")));
    assert_eq!(second.args, ["tag", "--annotate", "--force", "radicle-patch/feature"]);
    let (flow, third) = running(flow.next(exited(true, b"")));
    assert_eq!(third.args, ["push", "--force", "rad", "tag", "radicle-patch/feature"]);
    assert_eq!(third.env, None);
    match flow.next(exited(true, b"")) {
        Step::Succeed { line } => assert_eq!(line, Some("Updated patch feature".to_string())),
        step => panic!("not done: {:?}", step),
    }
}

#[test]
fn a_patch_can_be_tagged_without_force() {
    let step = create_or_update_patch(
        Publication::Create,
        None,
        "feature".to_string(),
        None,
        false,
    );
    let (flow, command) = running(step);
    assert_eq!(command.args, ["tag", "--annotate", "radicle-patch/feature"]);
    let (_, command) = running(flow.next(exited(true, b"")));
    assert_eq!(command.args, ["push", "rad", "tag", "radicle-patch/feature"]);
}

#[test]
fn nothing_is_pushed_if_tagging_fails() {
    let (flow, _) = running(start(PatchCommand::Create { message: None }, None));
    let (flow, _) = running(flow.next(exited(true, b"feature\n")));
    assert_eq!(message(flow.next(exited(false, b""))), "Failed to create git tag");
}

#[test]
fn failed_push_is_reported() {
    let (flow, _) = running(start(PatchCommand::Create { message: None }, None));
    let (flow, _) = running(flow.next(exited(true, b"feature\n")));
    let (flow, _) = running(flow.next(exited(true, b"")));
    assert_eq!(message(flow.next(exited(false, b""))), "Failed to push git tag");
}

#[test]
fn git_that_cannot_be_started_is_reported_with_its_causes() {
    let (flow, _) = running(start(PatchCommand::Create { message: None }, None));
    assert_eq!(
        causes(flow.next(spawn_failed())),
        [
            "failed to get current branch name",
            "failed to spawn command",
            "No such file or directory (os error 2)"
        ]
    );
    let (flow, _) = running(start(PatchCommand::Fetch { patch_handle: handle() }, None));
    assert_eq!(
        causes(flow.next(spawn_failed())),
        ["failed to spawn command", "No such file or directory (os error 2)"]
    );
}

#[test]
fn branch_that_cannot_be_read_ends_the_command() {
    let (flow, _) = running(start(PatchCommand::Update { message: None }, None));
    assert_eq!(
        causes(flow.next(exited(false, b"feature\n"))),
        [
            "failed to get current branch name",
            "Command failed with status ExitStatus(unix_wait_status(256))"
        ]
    );
    let (flow, _) = running(start(PatchCommand::Update { message: None }, None));
    assert_eq!(
        causes(flow.next(exited(true, b""))),
        ["failed to get current branch name", "empty command output"]
    );
    let (flow, _) = running(start(PatchCommand::Update { message: None }, None));
    assert_eq!(
        causes(flow.next(exited(true, b"ab\xff\n"))),
        [
            "failed to get current branch name",
            "invalid UTF-8 output from command",
            "invalid utf-8 sequence of 1 bytes from index 2"
        ]
    );
}

#[test]
fn branch_name_is_the_first_line() {
    let name = |stdout: &[u8]| get_current_branch_name(exited(true, stdout)).unwrap();
    assert_eq!(name(b"main\n"), "main");
    assert_eq!(name(b"main\r\n"), "main");
    assert_eq!(name(b"main"), "main");
    assert_eq!(name(b"\n"), "");
    assert_eq!(name(b"a\nb\n"), "a");
    assert_eq!(name("gr\u{f6}\u{df}e\n".as_bytes()), "gr\u{f6}\u{df}e");
}

#[test]
fn branch_name_from_text() {
    assert_eq!(branch_of_output(Ok("main\nother\n")).unwrap(), "main");
    assert!(matches!(branch_of_output(Ok("")), Err(BranchError::Empty)));
    match branch_of_output(Err("broken".to_string())) {
        Err(BranchError::InvalidUtf8 { cause }) => assert_eq!(cause, "broken"),
        other => panic!("{:?}", other),
    }
}

#[test]
fn fetch_creates_the_tag_of_the_handle() {
    let step = start(PatchCommand::Fetch { patch_handle: handle() }, Some("/rad"));
    let (flow, command) = running(step);
    let refspec = "remotes/hyb/tags/radicle-patch/feature/x:tags/radicle-patch/hyb/feature/x";
    assert_eq!(command.args, ["fetch", "rad", "--force", refspec]);
    assert_eq!(command.env, Some(("RAD_HOME".to_string(), "/rad".to_string())));
    assert_eq!(command.stdout, Stdout::Inherited);
    let local = refspec.split(':').nth(1).unwrap();
    assert_eq!(local, format!("tags/{}", patch_tag_name("hyb/feature/x")));
    match flow.next(exited(true, b"")) {
        Step::Succeed { line } => assert_eq!(line, None),
        step => panic!("not done: {:?}", step),
    }
}

#[test]
fn failed_fetch_is_reported() {
    let (flow, _) = running(start(PatchCommand::Fetch { patch_handle: handle() }, None));
    assert_eq!(message(flow.next(exited(false, b""))), "Failed to push git tag");
}

#[test]
fn tags_of_patches_have_a_prefix() {
    assert_eq!(patch_tag_name("feature"), "radicle-patch/feature");
    assert_ne!(patch_tag_name("a"), patch_tag_name("b"));
}

fn fetched_tag(handle: &str) -> String {
    let parts = HandleParts::from_str(handle).unwrap();
    let peer_id = parts.peer_id.clone();
    let patch_handle = PatchHandle::from_parts(parts, Ok(peer_id)).unwrap();
    let (_, command) = running(start(PatchCommand::Fetch { patch_handle }, None));
    command.args[3].split(':').nth(1).unwrap().to_string()
}

#[test]
fn fetched_tag_is_named_as_the_handle_was_written() {
    assert_eq!(fetched_tag("peer/feature/x"), "tags/radicle-patch/peer/feature/x");
    assert_ne!(fetched_tag("peer/feature"), fetched_tag("other/feature"));
    assert_ne!(fetched_tag("peer/feature"), fetched_tag("peer/other"));
}
