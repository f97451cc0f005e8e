//! Running the commands of the tool.
//!
//! A command is a short conversation with `git`: [`Program::run`] says which invocation comes
//! first, and [`Flow::next`] says, from how an invocation went, which one follows or how the
//! command ends.
use crate::error::{BranchError, BranchErrorView, CommandError, CommandErrorView, ProgramError};
use crate::git::{
    branch_command, fetch_command, fetch_tag, push_command, push_patch, show_branch, tag_command,
    tag_patch, GitCommand, GitCommandView,
};
use crate::handle::{PatchHandle, PatchHandleView};
use crate::text::{
    first_line, from_utf8, join, law_first_line, law_line_has_no_line_feed, law_line_read_back, leading_line,
    utf8_complaint, Text,
};
use vstd::prelude::*;
use vstd::utf8::{
    decode_utf8, encode_utf8, encode_utf8_decode_utf8, encode_utf8_valid_utf8, valid_utf8,
};

verus! {

/// Options that every command takes.
#[derive(Debug)]
pub struct Options {
    /// The Radicle home, unless it is the default one.
    pub rad_home: Option<String>,
}

/// What the user asked for.
#[derive(Debug)]
pub struct Program {
    pub command: Command,
    pub options: Options,
}

/// The commands of the tool.
#[derive(Debug)]
pub enum Command {
    /// Create, update or fetch Upstream patches
    Patch { command: PatchCommand },
}

/// The commands on patches.
#[derive(Debug)]
pub enum PatchCommand {
    /// Creates a patch from the current branch and publishes it.
    Create { message: Option<String> },
    /// Updates the patch with the name of the current branch and publishes it.
    Update { message: Option<String> },
    /// Fetches a patch from a peer and creates a tag for it.
    Fetch { patch_handle: PatchHandle },
}

/// The mathematical value of a [`PatchCommand`].
pub enum PatchCommandView {
    Create { message: Option<Text> },
    Update { message: Option<Text> },
    Fetch { handle: PatchHandleView },
}

impl View for PatchCommand {
    type V = PatchCommandView;

    open spec fn view(&self) -> PatchCommandView {
        match self {
            PatchCommand::Create { message } => PatchCommandView::Create {
                message: message.deep_view(),
            },
            PatchCommand::Update { message } => PatchCommandView::Update {
                message: message.deep_view(),
            },
            PatchCommand::Fetch { patch_handle } => PatchCommandView::Fetch {
                handle: patch_handle@,
            },
        }
    }
}

/// Whether a patch is published for the first time.
#[derive(Clone, Copy, Debug, PartialEq, Eq, Structural)]
pub enum Publication {
    Create,
    Update,
}

/// How an invocation of `git` went.
#[derive(Debug)]
pub enum Event {
    /// `git` could not be started.
    SpawnFailed { cause: String },
    /// `git` ran and exited.
    Exited {
        /// Whether the exit status tells of success.
        success: bool,
        /// The exit status as it is shown to the user.
        status: String,
        /// The captured output; empty if the output was not captured.
        stdout: Vec<u8>,
    },
}

/// The mathematical value of an [`Event`].
pub enum EventView {
    SpawnFailed { cause: Text },
    Exited { success: bool, status: Text, stdout: Seq<u8> },
}

impl View for Event {
    type V = EventView;

    open spec fn view(&self) -> EventView {
        match self {
            Event::SpawnFailed { cause } => EventView::SpawnFailed { cause: cause@ },
            Event::Exited { success, status, stdout } => EventView::Exited {
                success: *success,
                status: status@,
                stdout: stdout@,
            },
        }
    }
}

/// What a command is doing while an invocation of `git` runs.
#[derive(Debug)]
pub enum Flow {
    /// Asking for the current branch.
    Naming { publication: Publication, message: Option<String>, rad_home: Option<String> },
    /// Creating the tag of the patch.
    Tagging { publication: Publication, patch: String, force: bool, rad_home: Option<String> },
    /// Publishing the tag of the patch.
    Pushing { publication: Publication, patch: String },
    /// Fetching a patch.
    Fetching,
}

/// The mathematical value of a [`Flow`].
pub enum FlowView {
    Naming { publication: Publication, message: Option<Text>, rad_home: Option<Text> },
    Tagging { publication: Publication, patch: Text, force: bool, rad_home: Option<Text> },
    Pushing { publication: Publication, patch: Text },
    Fetching,
}

impl View for Flow {
    type V = FlowView;

    open spec fn view(&self) -> FlowView {
        match self {
            Flow::Naming { publication, message, rad_home } => FlowView::Naming {
                publication: *publication,
                message: message.deep_view(),
                rad_home: rad_home.deep_view(),
            },
            Flow::Tagging { publication, patch, force, rad_home } => FlowView::Tagging {
                publication: *publication,
                patch: patch@,
                force: *force,
                rad_home: rad_home.deep_view(),
            },
            Flow::Pushing { publication, patch } => FlowView::Pushing {
                publication: *publication,
                patch: patch@,
            },
            Flow::Fetching => FlowView::Fetching,
        }
    }
}

/// What is to be done next.
#[derive(Debug)]
pub enum Step {
    /// Run `git` and tell the flow how it went.
    Run { flow: Flow, command: GitCommand },
    /// The command has succeeded; a line may be left to print.
    Succeed { line: Option<String> },
    /// The command has failed.
    Fail { error: CommandError },
}

/// The mathematical value of a [`Step`].
pub enum StepView {
    Run { flow: FlowView, command: GitCommandView },
    Succeed { line: Option<Text> },
    Fail { error: CommandErrorView },
}

impl View for Step {
    type V = StepView;

    open spec fn view(&self) -> StepView {
        match self {
            Step::Run { flow, command } => StepView::Run { flow: flow@, command: command@ },
            Step::Succeed { line } => StepView::Succeed { line: line.deep_view() },
            Step::Fail { error } => StepView::Fail { error: error@ },
        }
    }
}

/// The name of the current branch, from how asking `git` for it went.
pub open spec fn branch_name(event: EventView) -> Result<Text, BranchErrorView> {
    match event {
        EventView::SpawnFailed { cause } => Err(BranchErrorView::Spawn { cause }),
        EventView::Exited { success, status, stdout } => if !success {
            Err(BranchErrorView::Status { status })
        } else if !valid_utf8(stdout) {
            Err(BranchErrorView::InvalidUtf8 { cause: utf8_complaint(stdout) })
        } else {
            match leading_line(decode_utf8(stdout)) {
                Some(line) => Ok(line),
                None => Err(BranchErrorView::Empty),
            }
        },
    }
}

/// The start of publishing a patch under the name of the current branch.
pub open spec fn publishing(
    publication: Publication,
    message: Option<Text>,
    rad_home: Option<Text>,
) -> StepView {
    StepView::Run {
        flow: FlowView::Naming { publication, message, rad_home },
        command: branch_command(),
    }
}

/// The start of creating the tag of a patch and publishing it.
pub open spec fn tagging(
    publication: Publication,
    patch: Text,
    message: Option<Text>,
    force: bool,
    rad_home: Option<Text>,
) -> StepView {
    StepView::Run {
        flow: FlowView::Tagging { publication, patch, force, rad_home },
        command: tag_command(patch, message, force),
    }
}

/// The first step of a command on patches.
pub open spec fn first_step(command: PatchCommandView, rad_home: Option<Text>) -> StepView {
    match command {
        PatchCommandView::Create { message } => publishing(Publication::Create, message, rad_home),
        PatchCommandView::Update { message } => publishing(Publication::Update, message, rad_home),
        PatchCommandView::Fetch { handle } => StepView::Run {
            flow: FlowView::Fetching,
            command: fetch_command(handle, rad_home),
        },
    }
}

/// The step after an invocation whose output does not matter: `success` if it was successful.
pub open spec fn on_success(event: EventView, complaint: Text, success: StepView) -> StepView {
    match event {
        EventView::SpawnFailed { cause } => StepView::Fail {
            error: CommandErrorView::Spawn { cause },
        },
        EventView::Exited { success: successful, .. } => if successful {
            success
        } else {
            StepView::Fail { error: CommandErrorView::Program { message: complaint } }
        },
    }
}

/// The line that tells of a published patch.
pub open spec fn published_line(publication: Publication, patch: Text) -> Text {
    match publication {
        Publication::Create => "Created patch "@ + patch,
        Publication::Update => "Updated patch "@ + patch,
    }
}

/// The step that follows the invocation of a flow.
pub open spec fn next_step(flow: FlowView, event: EventView) -> StepView {
    match flow {
        FlowView::Naming { publication, message, rad_home } => match branch_name(event) {
            Ok(patch) => tagging(publication, patch, message, true, rad_home),
            Err(error) => StepView::Fail { error: CommandErrorView::Branch { error } },
        },
        FlowView::Tagging { publication, patch, force, rad_home } => on_success(
            event,
            "Failed to create git tag"@,
            StepView::Run {
                flow: FlowView::Pushing { publication, patch },
                command: push_command(patch, force, rad_home),
            },
        ),
        FlowView::Pushing { publication, patch } => on_success(
            event,
            "Failed to push git tag"@,
            StepView::Succeed { line: Some(published_line(publication, patch)) },
        ),
        FlowView::Fetching => on_success(
            event,
            "Failed to push git tag"@,
            StepView::Succeed { line: None },
        ),
    }
}

impl Program {
    /// Starts what the user asked for.
    pub fn run(self) -> (step: Step)
        ensures
            step@ == match self.command {
                Command::Patch { command } => first_step(
                    command@,
                    self.options.rad_home.deep_view(),
                ),
            },
    {
        self.command.run(self.options)
    }
}

impl Command {
    /// Starts the command.
    pub fn run(self, options: Options) -> (step: Step)
        ensures
            step@ == match self {
                Command::Patch { command } => first_step(command@, options.rad_home.deep_view()),
            },
    {
        match self {
            Command::Patch { command } => command.run(options),
        }
    }
}

impl PatchCommand {
    /// Starts the command.
    pub fn run(self, options: Options) -> (step: Step)
        ensures
            step@ == first_step(self@, options.rad_home.deep_view()),
    {
        match self {
            PatchCommand::Create { message } => create_patch(options, message),
            PatchCommand::Update { message } => update_patch(options, message),
            PatchCommand::Fetch { patch_handle } => fetch_patch(options, patch_handle),
        }
    }
}

/// Starts creating a patch from the current branch and publishing it.
pub fn create_patch(options: Options, message: Option<String>) -> (step: Step)
    ensures
        step@ == publishing(Publication::Create, message.deep_view(), options.rad_home.deep_view()),
{
    Step::Run {
        flow: Flow::Naming {
            publication: Publication::Create,
            message,
            rad_home: options.rad_home,
        },
        command: show_branch(),
    }
}

/// Starts updating the patch with the name of the current branch and publishing it.
pub fn update_patch(options: Options, message: Option<String>) -> (step: Step)
    ensures
        step@ == publishing(Publication::Update, message.deep_view(), options.rad_home.deep_view()),
{
    Step::Run {
        flow: Flow::Naming {
            publication: Publication::Update,
            message,
            rad_home: options.rad_home,
        },
        command: show_branch(),
    }
}

/// Starts fetching a patch of a peer.
pub fn fetch_patch(options: Options, patch_handle: PatchHandle) -> (step: Step)
    ensures
        step@ == (StepView::Run {
            flow: FlowView::Fetching,
            command: fetch_command(patch_handle@, options.rad_home.deep_view()),
        }),
{
    Step::Run { flow: Flow::Fetching, command: fetch_tag(&patch_handle, options.rad_home) }
}

/// Starts creating the tag of a patch, after which it is published.
pub fn create_or_update_patch(
    publication: Publication,
    rad_home: Option<String>,
    patch: String,
    message: Option<String>,
    force: bool,
) -> (step: Step)
    ensures
        step@ == tagging(publication, patch@, message.deep_view(), force, rad_home.deep_view()),
{
    let command = tag_patch(patch.as_str(), message, force);
    Step::Run { flow: Flow::Tagging { publication, patch, force, rad_home }, command }
}

/// Reads the name of the current branch from what `git` printed, or from the reason why that is
/// not text.
pub fn branch_of_output(output: Result<&str, String>) -> (name: Result<String, BranchError>)
    ensures
        match output {
            Err(cause) => name matches Err(error) && error@ == (BranchErrorView::InvalidUtf8 {
                cause: cause@,
            }),
            Ok(text) => match leading_line(text@) {
                Some(line) => name matches Ok(name) && name@ == line,
                None => name matches Err(error) && error@ == BranchErrorView::Empty,
            },
        },
{
    match output {
        Err(cause) => Err(BranchError::InvalidUtf8 { cause }),
        Ok(text) => match first_line(text) {
            Some(line) => Ok(line.to_owned()),
            None => Err(BranchError::Empty),
        },
    }
}

/// Reads the name of the current branch from how asking `git` for it went.
pub fn get_current_branch_name(event: Event) -> (name: Result<String, BranchError>)
    ensures
        match name {
            Ok(name) => branch_name(event@) == Ok::<Text, BranchErrorView>(name@),
            Err(error) => branch_name(event@) == Err::<Text, BranchErrorView>(error@),
        },
{
    match event {
        Event::SpawnFailed { cause } => Err(BranchError::Spawn { cause }),
        Event::Exited { success, status, stdout } => {
            if !success {
                return Err(BranchError::Status { status });
            }
            let output = from_utf8(stdout.as_slice());
            proof {
                if let Ok(text) = output {
                    encode_utf8_decode_utf8(text@);
                }
            }
            branch_of_output(output)
        },
    }
}

/// Goes on to `success` if an invocation was successful, and otherwise fails.
fn require_success(event: Event, complaint: &str, success: Step) -> (step: Step)
    ensures
        step@ == on_success(event@, complaint@, success@),
{
    match event {
        Event::SpawnFailed { cause } => Step::Fail { error: CommandError::Spawn { cause } },
        Event::Exited { success: successful, .. } => {
            if successful {
                success
            } else {
                Step::Fail { error: CommandError::Program(ProgramError::new(complaint)) }
            }
        },
    }
}

impl Flow {
    /// Says what follows the invocation of this flow.
    pub fn next(self, event: Event) -> (step: Step)
        ensures
            step@ == next_step(self@, event@),
    {
        match self {
            Flow::Naming { publication, message, rad_home } => match get_current_branch_name(event) {
                Ok(patch) => create_or_update_patch(publication, rad_home, patch, message, true),
                Err(error) => Step::Fail { error: CommandError::Branch(error) },
            },
            Flow::Tagging { publication, patch, force, rad_home } => {
                let command = push_patch(patch.as_str(), force, rad_home);
                require_success(
                    event,
                    "Failed to create git tag",
                    Step::Run { flow: Flow::Pushing { publication, patch }, command },
                )
            },
            Flow::Pushing { publication, patch } => {
                let line = match publication {
                    Publication::Create => join("Created patch ", patch.as_str()),
                    Publication::Update => join("Updated patch ", patch.as_str()),
                };
                require_success(
                    event,
                    "Failed to push git tag",
                    Step::Succeed { line: Some(line) },
                )
            },
            Flow::Fetching => require_success(
                event,
                "Failed to push git tag",
                Step::Succeed { line: None },
            ),
        }
    }
}

/// The invocations of a run that starts with `step`, where `events` tells how they go, in turn.
pub open spec fn invocations(step: StepView, events: Seq<EventView>) -> Seq<GitCommandView>
    decreases events.len(),
{
    match step {
        StepView::Run { flow, command } => if events.len() == 0 {
            seq![command]
        } else {
            seq![command] + invocations(next_step(flow, events[0]), events.drop_first())
        },
        _ => seq![],
    }
}

/// Where a run that starts with `step` has come to after `events`.
pub open spec fn outcome(step: StepView, events: Seq<EventView>) -> StepView
    decreases events.len(),
{
    match step {
        StepView::Run { flow, .. } => if events.len() == 0 {
            step
        } else {
            outcome(next_step(flow, events[0]), events.drop_first())
        },
        _ => step,
    }
}

/// The branch that `git` prints on a line of its own is the one that a patch is named after.
pub proof fn law_branch_read_back(branch: Text, status: Text)
    requires
        !branch.contains('\n'),
        branch.len() > 0 ==> branch.last() != '\r',
    ensures
        branch_name(
            EventView::Exited {
                success: true,
                status,
                stdout: encode_utf8(branch + seq!['\n']),
            },
        ) == Ok::<Text, BranchErrorView>(branch),
{
    let printed = branch + seq!['\n'];
    encode_utf8_valid_utf8(printed);
    encode_utf8_decode_utf8(printed);
    law_line_read_back(branch, seq![]);
    assert(printed =~= branch + seq!['\n'] + seq![]);
}

/// The name of a patch is one line, whatever `git` prints.
pub proof fn law_patch_name_is_one_line(event: EventView)
    ensures
        branch_name(event) matches Ok(name) ==> !name.contains('\n'),
{
    if let EventView::Exited { stdout, .. } = event {
        law_line_has_no_line_feed(decode_utf8(stdout));
    }
}

/// Whether `git` ran and was successful.
pub open spec fn succeeded(event: EventView) -> bool {
    event matches EventView::Exited { success, .. } && success
}

/// Whether the name of the patch came to be known.
pub open spec fn named(events: Seq<EventView>) -> bool {
    events.len() > 0 && branch_name(events[0]) is Ok
}

/// The name of the patch, if it came to be known.
pub open spec fn patch_name(events: Seq<EventView>) -> Text {
    branch_name(events[0])->Ok_0
}

/// Whether the tag of the patch was created.
pub open spec fn tagged(events: Seq<EventView>) -> bool {
    named(events) && events.len() > 1 && succeeded(events[1])
}

/// Whether the tag of the patch was created and published.
pub open spec fn pushed(events: Seq<EventView>) -> bool {
    tagged(events) && events.len() > 2 && succeeded(events[2])
}

/// The invocations that publish a patch.
pub open spec fn publishing_invocations(
    message: Option<Text>,
    rad_home: Option<Text>,
    events: Seq<EventView>,
) -> Seq<GitCommandView> {
    let patch = patch_name(events);
    if tagged(events) {
        seq![
            branch_command(),
            tag_command(patch, message, true),
            push_command(patch, true, rad_home),
        ]
    } else if named(events) {
        seq![branch_command(), tag_command(patch, message, true)]
    } else {
        seq![branch_command()]
    }
}

/// Publishing a patch asks for the branch, then creates the tag, then pushes it, and each of
/// these only if the one before was successful: nothing is published that was not tagged.
pub proof fn law_publishing_invocations(
    publication: Publication,
    message: Option<Text>,
    rad_home: Option<Text>,
    events: Seq<EventView>,
)
    ensures
        invocations(publishing(publication, message, rad_home), events) == publishing_invocations(
            message,
            rad_home,
            events,
        ),
{
    reveal_with_fuel(invocations, 4);
    if events.len() > 1 {
        assert(events.drop_first()[0] == events[1]);
    }
    assert(invocations(publishing(publication, message, rad_home), events)
        =~= publishing_invocations(message, rad_home, events));
}

/// Publishing a patch succeeds exactly if all three invocations do, and then the user is told
/// the name of the patch.
pub proof fn law_publishing_outcome(
    publication: Publication,
    message: Option<Text>,
    rad_home: Option<Text>,
    events: Seq<EventView>,
)
    requires
        events.len() >= 3,
    ensures
        ({
            let end = outcome(publishing(publication, message, rad_home), events);
            &&& end is Succeed <==> pushed(events)
            &&& end is Fail <==> !pushed(events)
            &&& pushed(events) ==> end == (StepView::Succeed {
                line: Some(published_line(publication, patch_name(events))),
            })
        }),
{
    reveal_with_fuel(outcome, 4);
    let rest = events.drop_first();
    assert(rest[0] == events[1]);
    assert(rest.drop_first()[0] == events[2]);
}

/// Creating and updating a patch make the same invocations.
pub proof fn law_create_and_update_invoke_the_same(
    message: Option<Text>,
    rad_home: Option<Text>,
    events: Seq<EventView>,
)
    ensures
        invocations(first_step(PatchCommandView::Create { message }, rad_home), events)
            == invocations(first_step(PatchCommandView::Update { message }, rad_home), events),
{
    law_publishing_invocations(Publication::Create, message, rad_home, events);
    law_publishing_invocations(Publication::Update, message, rad_home, events);
}

/// Fetching a patch is a single invocation, whose success is the success of the command.
pub proof fn law_fetching(
    handle: PatchHandleView,
    rad_home: Option<Text>,
    events: Seq<EventView>,
)
    ensures
        ({
            let start = first_step(PatchCommandView::Fetch { handle }, rad_home);
            &&& invocations(start, events) == seq![fetch_command(handle, rad_home)]
            &&& events.len() > 0 ==> outcome(start, events) == on_success(
                events[0],
                "Failed to push git tag"@,
                StepView::Succeed { line: None },
            )
        }),
{
    reveal_with_fuel(invocations, 2);
    reveal_with_fuel(outcome, 2);
    assert(invocations(first_step(PatchCommandView::Fetch { handle }, rad_home), events) =~= seq![
        fetch_command(handle, rad_home),
    ]);
}

/// Every command ends after at most three invocations.
pub proof fn law_commands_end(
    command: PatchCommandView,
    rad_home: Option<Text>,
    events: Seq<EventView>,
)
    requires
        events.len() >= 3,
    ensures
        !(outcome(first_step(command, rad_home), events) is Run),
{
    match command {
        PatchCommandView::Create { message } => {
            law_publishing_outcome(Publication::Create, message, rad_home, events);
        },
        PatchCommandView::Update { message } => {
            law_publishing_outcome(Publication::Update, message, rad_home, events);
        },
        PatchCommandView::Fetch { handle } => {
            law_fetching(handle, rad_home, events);
        },
    }
}

/// An invocation that could not be started is never followed by another one.
pub proof fn law_failed_start_ends_command(flow: FlowView, cause: Text)
    ensures
        next_step(flow, EventView::SpawnFailed { cause }) is Fail,
{
}

/// Commands, events, flows and steps are seen as they are.
pub proof fn law_views_of_commands(command: PatchCommand, event: Event, flow: Flow, step: Step)
    ensures
        match command {
            PatchCommand::Create { message } => command@ == (PatchCommandView::Create {
                message: message.deep_view(),
            }),
            PatchCommand::Update { message } => command@ == (PatchCommandView::Update {
                message: message.deep_view(),
            }),
            PatchCommand::Fetch { patch_handle } => command@ == (PatchCommandView::Fetch {
                handle: patch_handle@,
            }),
        },
        match event {
            Event::SpawnFailed { cause } => event@ == (EventView::SpawnFailed { cause: cause@ }),
            Event::Exited { success, status, stdout } => event@ == (EventView::Exited {
                success,
                status: status@,
                stdout: stdout@,
            }),
        },
        match flow {
            Flow::Naming { publication, message, rad_home } => flow@ == (FlowView::Naming {
                publication,
                message: message.deep_view(),
                rad_home: rad_home.deep_view(),
            }),
            Flow::Tagging { publication, patch, force, rad_home } => flow@ == (FlowView::Tagging {
                publication,
                patch: patch@,
                force,
                rad_home: rad_home.deep_view(),
            }),
            Flow::Pushing { publication, patch } => flow@ == (FlowView::Pushing {
                publication,
                patch: patch@,
            }),
            Flow::Fetching => flow@ == FlowView::Fetching,
        },
        match step {
            Step::Run { flow, command } => step@ == (StepView::Run {
                flow: flow@,
                command: command@,
            }),
            Step::Succeed { line } => step@ == (StepView::Succeed { line: line.deep_view() }),
            Step::Fail { error } => step@ == (StepView::Fail { error: error@ }),
        },
{
}

/// The current branch is known exactly if `git` ran, was successful and printed text that is not
/// empty. Then it is the first line of the output; otherwise the first of these that does not hold
/// is the error.
pub proof fn law_branch_or_error(event: EventView)
    ensures
        match event {
            EventView::SpawnFailed { cause } => branch_name(event) == Err::<Text, BranchErrorView>(
                BranchErrorView::Spawn { cause },
            ),
            EventView::Exited { success, status, stdout } => {
                &&& !success ==> branch_name(event) == Err::<Text, BranchErrorView>(
                    BranchErrorView::Status { status },
                )
                &&& success && !valid_utf8(stdout) ==> branch_name(event) == Err::<
                    Text,
                    BranchErrorView,
                >(BranchErrorView::InvalidUtf8 { cause: utf8_complaint(stdout) })
                &&& success && valid_utf8(stdout) && decode_utf8(stdout).len() == 0 ==> branch_name(
                    event,
                ) == Err::<Text, BranchErrorView>(BranchErrorView::Empty)
                &&& success && valid_utf8(stdout) && decode_utf8(stdout).len() > 0 ==> {
                    let printed = decode_utf8(stdout);
                    let name = branch_name(event)->Ok_0;
                    let end = name.len() as int;
                    &&& branch_name(event) is Ok
                    &&& end <= printed.len()
                    &&& forall|i: int|
                        0 <= i < end ==> name[i] == #[trigger] printed[i] && printed[i] != '\n'
                    &&& {
                        ||| end == printed.len()
                        ||| printed[end] == '\n' && (end > 0 ==> printed[end - 1] != '\r')
                        ||| end + 1 < printed.len() && printed[end] == '\r' && printed[end + 1]
                            == '\n'
                    }
                }
            },
        },
{
    if let EventView::Exited { stdout, .. } = event {
        law_first_line(decode_utf8(stdout));
    }
}

/// Creating or updating a patch on a branch runs `git branch --show-current`, then
/// `git tag --annotate --force` with the message if there is one and `radicle-patch/<branch>`, then
/// `git push --force rad tag radicle-patch/<branch>` in the Radicle home, and tells the user what
/// was done, with the name of the branch.
pub proof fn law_branch_is_published(
    branch: Text,
    message: Option<Text>,
    rad_home: Option<Text>,
    asked: EventView,
    tagging: EventView,
    pushing: EventView,
)
    requires
        branch_name(asked) == Ok::<Text, BranchErrorView>(branch),
        tagging matches EventView::Exited { success, .. } && success,
        pushing matches EventView::Exited { success, .. } && success,
    ensures
        ({
            let events = seq![asked, tagging, pushing];
            let create = first_step(PatchCommandView::Create { message }, rad_home);
            let update = first_step(PatchCommandView::Update { message }, rad_home);
            let made = invocations(create, events);
            &&& made == invocations(update, events)
            &&& made.len() == 3
            &&& made[0].args == seq!["branch"@, "--show-current"@]
            &&& made[1].args == match message {
                Some(text) => seq![
                    "tag"@,
                    "--annotate"@,
                    "--force"@,
                    "--message"@,
                    text,
                    "radicle-patch/"@ + branch,
                ],
                None => seq!["tag"@, "--annotate"@, "--force"@, "radicle-patch/"@ + branch],
            }
            &&& made[2].args == seq![
                "push"@,
                "--force"@,
                "rad"@,
                "tag"@,
                "radicle-patch/"@ + branch,
            ]
            &&& made[0].env is None && made[1].env is None
            &&& made[2].env == match rad_home {
                Some(home) => Some(("RAD_HOME"@, home)),
                None => None,
            }
            &&& outcome(create, events) == (StepView::Succeed {
                line: Some("Created patch "@ + branch),
            })
            &&& outcome(update, events) == (StepView::Succeed {
                line: Some("Updated patch "@ + branch),
            })
        }),
{
    let events = seq![asked, tagging, pushing];
    assert(events.drop_first() =~= seq![tagging, pushing]);
    assert(events.drop_first().drop_first() =~= seq![pushing]);
    assert(tagged(events) && pushed(events));
    law_publishing_invocations(Publication::Create, message, rad_home, events);
    law_publishing_invocations(Publication::Update, message, rad_home, events);
    law_publishing_outcome(Publication::Create, message, rad_home, events);
    law_publishing_outcome(Publication::Update, message, rad_home, events);
    let made = invocations(first_step(PatchCommandView::Create { message }, rad_home), events);
    match message {
        Some(text) => {
            assert(made[1].args =~= seq![
                "tag"@,
                "--annotate"@,
                "--force"@,
                "--message"@,
                text,
                "radicle-patch/"@ + branch,
            ]);
        },
        None => {
            assert(made[1].args =~= seq![
                "tag"@,
                "--annotate"@,
                "--force"@,
                "radicle-patch/"@ + branch,
            ]);
        },
    }
    assert(made[2].args =~= seq!["push"@, "--force"@, "rad"@, "tag"@, "radicle-patch/"@ + branch]);
}

/// A command starts with the invocation that belongs to it, and remembers all that it was given.
pub proof fn law_first_invocation(command: PatchCommandView, rad_home: Option<Text>)
    ensures
        match command {
            PatchCommandView::Create { message } => first_step(command, rad_home) == (
            StepView::Run {
                flow: FlowView::Naming { publication: Publication::Create, message, rad_home },
                command: branch_command(),
            }),
            PatchCommandView::Update { message } => first_step(command, rad_home) == (
            StepView::Run {
                flow: FlowView::Naming { publication: Publication::Update, message, rad_home },
                command: branch_command(),
            }),
            PatchCommandView::Fetch { handle } => first_step(command, rad_home) == (
            StepView::Run { flow: FlowView::Fetching, command: fetch_command(handle, rad_home) }),
        },
        forall|publication: Publication, message: Option<Text>| #[trigger]
            publishing(publication, message, rad_home) == (StepView::Run {
                flow: FlowView::Naming { publication, message, rad_home },
                command: branch_command(),
            }),
{
}

/// The tag of a patch is created as it is asked for, and what is asked for is remembered until it
/// is published.
pub proof fn law_tagging_remembers(
    publication: Publication,
    patch: Text,
    message: Option<Text>,
    force: bool,
    rad_home: Option<Text>,
    status: Text,
    stdout: Seq<u8>,
)
    ensures
        tagging(publication, patch, message, force, rad_home) == (StepView::Run {
            flow: FlowView::Tagging { publication, patch, force, rad_home },
            command: tag_command(patch, message, force),
        }),
        next_step(
            FlowView::Tagging { publication, patch, force, rad_home },
            EventView::Exited { success: true, status, stdout },
        ) == (StepView::Run {
            flow: FlowView::Pushing { publication, patch },
            command: push_command(patch, force, rad_home),
        }),
{
}

/// An invocation that fails ends the command, and the user is told what failed: that the tag was
/// not created, or that it was not pushed, whatever the status and the output are. If the branch is
/// not known, its error is the error of the command.
pub proof fn law_failed_invocation_is_told(
    publication: Publication,
    patch: Text,
    message: Option<Text>,
    force: bool,
    rad_home: Option<Text>,
    status: Text,
    stdout: Seq<u8>,
    cause: Text,
)
    ensures
        ({
            let failed = EventView::Exited { success: false, status, stdout };
            let unstarted = EventView::SpawnFailed { cause };
            let naming = FlowView::Naming { publication, message, rad_home };
            let tagging = FlowView::Tagging { publication, patch, force, rad_home };
            let pushing = FlowView::Pushing { publication, patch };
            &&& next_step(naming, failed) == (StepView::Fail {
                error: CommandErrorView::Branch { error: BranchErrorView::Status { status } },
            })
            &&& next_step(naming, unstarted) == (StepView::Fail {
                error: CommandErrorView::Branch { error: BranchErrorView::Spawn { cause } },
            })
            &&& next_step(tagging, failed) == (StepView::Fail {
                error: CommandErrorView::Program { message: "Failed to create git tag"@ },
            })
            &&& next_step(pushing, failed) == (StepView::Fail {
                error: CommandErrorView::Program { message: "Failed to push git tag"@ },
            })
            &&& next_step(FlowView::Fetching, failed) == (StepView::Fail {
                error: CommandErrorView::Program { message: "Failed to push git tag"@ },
            })
            &&& next_step(tagging, unstarted) == (StepView::Fail {
                error: CommandErrorView::Spawn { cause },
            })
            &&& next_step(pushing, unstarted) == (StepView::Fail {
                error: CommandErrorView::Spawn { cause },
            })
            &&& next_step(FlowView::Fetching, unstarted) == (StepView::Fail {
                error: CommandErrorView::Spawn { cause },
            })
        }),
{
}

/// If the branch is not known, the command fails with the reason; if it is, the branch is tagged,
/// in place of an older tag, with the message that was given.
pub proof fn law_branch_decides(
    publication: Publication,
    message: Option<Text>,
    rad_home: Option<Text>,
    event: EventView,
)
    ensures
        ({
            let step = next_step(FlowView::Naming { publication, message, rad_home }, event);
            match branch_name(event) {
                Ok(branch) => step == (StepView::Run {
                    flow: FlowView::Tagging { publication, patch: branch, force: true, rad_home },
                    command: tag_command(branch, message, true),
                }),
                Err(error) => step == (StepView::Fail {
                    error: CommandErrorView::Branch { error },
                }),
            }
        }),
{
}

/// The last invocation of a command decides whether it succeeds. Then the user is told what was
/// done with which patch, and after a fetch nothing more than `git` tells.
pub proof fn law_success_is_told(patch: Text, status: Text, stdout: Seq<u8>)
    ensures
        ({
            let well = EventView::Exited { success: true, status, stdout };
            &&& next_step(
                FlowView::Pushing { publication: Publication::Create, patch },
                well,
            ) == (StepView::Succeed { line: Some("Created patch "@ + patch) })
            &&& next_step(
                FlowView::Pushing { publication: Publication::Update, patch },
                well,
            ) == (StepView::Succeed { line: Some("Updated patch "@ + patch) })
            &&& next_step(FlowView::Fetching, well) == (StepView::Succeed { line: None })
        }),
{
}

} // verus!
