//! Errors of the command line tool and how they are shown.
use crate::text::{join, Text};
use vstd::prelude::*;

verus! {

/// Return a `ProgramError` when you want to show an error message to the user without displaying
/// the chain of causes or a backtrace.
#[derive(Debug)]
pub struct ProgramError {
    /// What the user is told.
    pub message: String,
}

impl ProgramError {
    /// Makes an error with the given message.
    pub fn new(message: &str) -> (error: ProgramError)
        ensures
            error.message@ == message@,
    {
        ProgramError { message: message.to_owned() }
    }

    /// The error that caused this one: there is never one.
    pub fn source(&self) -> (source: Option<&ProgramError>)
        ensures
            source is None,
    {
        None
    }

    /// The text that shows the error.
    pub fn to_string(&self) -> (text: String)
        ensures
            text@ == self.message@,
    {
        self.message.clone()
    }
}

/// Why the name of the current branch is not known.
#[derive(Debug)]
pub enum BranchError {
    /// `git` could not be started.
    Spawn { cause: String },
    /// `git` was not successful.
    Status { status: String },
    /// What `git` printed is not text.
    InvalidUtf8 { cause: String },
    /// `git` printed nothing.
    Empty,
}

/// The mathematical value of a [`BranchError`].
pub enum BranchErrorView {
    Spawn { cause: Text },
    Status { status: Text },
    InvalidUtf8 { cause: Text },
    Empty,
}

impl View for BranchError {
    type V = BranchErrorView;

    open spec fn view(&self) -> BranchErrorView {
        match self {
            BranchError::Spawn { cause } => BranchErrorView::Spawn { cause: cause@ },
            BranchError::Status { status } => BranchErrorView::Status { status: status@ },
            BranchError::InvalidUtf8 { cause } => BranchErrorView::InvalidUtf8 { cause: cause@ },
            BranchError::Empty => BranchErrorView::Empty,
        }
    }
}

/// Why a command of the tool failed.
#[derive(Debug)]
pub enum CommandError {
    /// The user is told a message and nothing else.
    Program(ProgramError),
    /// `git` could not be started.
    Spawn { cause: String },
    /// The patch has no name, since the current branch is not known.
    Branch(BranchError),
}

/// The mathematical value of a [`CommandError`].
pub enum CommandErrorView {
    Program { message: Text },
    Spawn { cause: Text },
    Branch { error: BranchErrorView },
}

impl View for CommandError {
    type V = CommandErrorView;

    open spec fn view(&self) -> CommandErrorView {
        match self {
            CommandError::Program(error) => CommandErrorView::Program { message: error.message@ },
            CommandError::Spawn { cause } => CommandErrorView::Spawn { cause: cause@ },
            CommandError::Branch(error) => CommandErrorView::Branch { error: error@ },
        }
    }
}

/// What the user is shown of an error.
#[derive(Debug)]
pub enum Report {
    /// A message alone.
    Message(String),
    /// The whole chain of causes, outermost first.
    Causes(Vec<String>),
}

/// The mathematical value of a [`Report`].
pub enum ReportView {
    Message { message: Text },
    Causes { causes: Seq<Text> },
}

impl View for Report {
    type V = ReportView;

    open spec fn view(&self) -> ReportView {
        match self {
            Report::Message(message) => ReportView::Message { message: message@ },
            Report::Causes(causes) => ReportView::Causes { causes: causes.deep_view() },
        }
    }
}

/// The chain of causes of a command that could not be started.
pub open spec fn spawn_causes(cause: Text) -> Seq<Text> {
    seq!["failed to spawn command"@, cause]
}

/// The chain of causes of a [`BranchError`], outermost first.
pub open spec fn branch_causes(error: BranchErrorView) -> Seq<Text> {
    match error {
        BranchErrorView::Spawn { cause } => spawn_causes(cause),
        BranchErrorView::Status { status } => seq!["Command failed with status "@ + status],
        BranchErrorView::InvalidUtf8 { cause } => seq!["invalid UTF-8 output from command"@, cause],
        BranchErrorView::Empty => seq!["empty command output"@],
    }
}

/// What the user is shown of a [`CommandError`]: the message of a [`ProgramError`], or the
/// causes of any other error.
pub open spec fn shown(error: CommandErrorView) -> ReportView {
    match error {
        CommandErrorView::Program { message } => ReportView::Message { message },
        CommandErrorView::Spawn { cause } => ReportView::Causes { causes: spawn_causes(cause) },
        CommandErrorView::Branch { error } => ReportView::Causes {
            causes: seq!["failed to get current branch name"@] + branch_causes(error),
        },
    }
}

impl BranchError {
    fn push_causes(self, causes: &mut Vec<String>)
        ensures
            final(causes).deep_view() == old(causes).deep_view() + branch_causes(self@),
    {
        let ghost before = causes.deep_view();
        let ghost error = self@;
        match self {
            BranchError::Spawn { cause } => {
                causes.push("failed to spawn command".to_string());
                causes.push(cause);
            },
            BranchError::Status { status } => {
                causes.push(join("Command failed with status ", status.as_str()));
            },
            BranchError::InvalidUtf8 { cause } => {
                causes.push("invalid UTF-8 output from command".to_string());
                causes.push(cause);
            },
            BranchError::Empty => {
                causes.push("empty command output".to_string());
            },
        }
        assert(causes.deep_view() =~= before + branch_causes(error));
    }
}

impl CommandError {
    /// What the user is to be shown of the error.
    pub fn report(self) -> (report: Report)
        ensures
            report@ == shown(self@),
    {
        let ghost error = self@;
        match self {
            CommandError::Program(program_error) => Report::Message(program_error.to_string()),
            CommandError::Spawn { cause } => {
                let causes: Vec<String> = vec!["failed to spawn command".to_string(), cause];
                assert(causes.deep_view() =~= shown(error)->causes);
                Report::Causes(causes)
            },
            CommandError::Branch(branch_error) => {
                let mut causes: Vec<String> = vec!["failed to get current branch name".to_string()];
                branch_error.push_causes(&mut causes);
                assert(causes.deep_view() =~= shown(error)->causes);
                Report::Causes(causes)
            },
        }
    }
}

/// An error is shown with no more than its message exactly if it is a [`ProgramError`]; any
/// other one is shown with at least one cause.
pub proof fn law_only_program_errors_are_shown_bare(error: CommandErrorView)
    ensures
        shown(error) is Message <==> error is Program,
        shown(error) is Causes ==> shown(error)->causes.len() > 0,
{
}

/// Errors and reports are seen as they are.
pub proof fn law_views_of_errors(branch: BranchError, command: CommandError, report: Report)
    ensures
        match branch {
            BranchError::Spawn { cause } => branch@ == (BranchErrorView::Spawn { cause: cause@ }),
            BranchError::Status { status } => branch@ == (BranchErrorView::Status {
                status: status@,
            }),
            BranchError::InvalidUtf8 { cause } => branch@ == (BranchErrorView::InvalidUtf8 {
                cause: cause@,
            }),
            BranchError::Empty => branch@ == BranchErrorView::Empty,
        },
        match command {
            CommandError::Program(error) => command@ == (CommandErrorView::Program {
                message: error.message@,
            }),
            CommandError::Spawn { cause } => command@ == (CommandErrorView::Spawn {
                cause: cause@,
            }),
            CommandError::Branch(error) => command@ == (CommandErrorView::Branch {
                error: error@,
            }),
        },
        match report {
            Report::Message(message) => report@ == (ReportView::Message { message: message@ }),
            Report::Causes(causes) => report@ == (ReportView::Causes {
                causes: causes.deep_view(),
            }),
        },
{
}

/// The message of a [`ProgramError`] is shown as it is.
pub proof fn law_message_is_shown(message: Text)
    ensures
        shown(CommandErrorView::Program { message }) == (ReportView::Message { message }),
{
}

/// Every other error is shown with all of its causes: that of the command first, and last the one
/// that comes from outside, as it is.
pub proof fn law_causes_are_shown(cause: Text)
    ensures
        ({
            let branch = "failed to get current branch name"@;
            let spawn = "failed to spawn command"@;
            &&& shown(CommandErrorView::Spawn { cause })->causes == seq![spawn, cause]
            &&& shown(
                CommandErrorView::Branch { error: BranchErrorView::Spawn { cause } },
            )->causes == seq![branch, spawn, cause]
            &&& shown(
                CommandErrorView::Branch { error: BranchErrorView::Status { status: cause } },
            )->causes == seq![branch, "Command failed with status "@ + cause]
            &&& shown(
                CommandErrorView::Branch { error: BranchErrorView::InvalidUtf8 { cause } },
            )->causes == seq![branch, "invalid UTF-8 output from command"@, cause]
            &&& shown(CommandErrorView::Branch { error: BranchErrorView::Empty })->causes == seq![
                branch,
                "empty command output"@,
            ]
        }),
{
    let branch = seq!["failed to get current branch name"@];
    let spawned = shown(CommandErrorView::Branch { error: BranchErrorView::Spawn { cause } });
    assert(spawned->causes =~= branch + seq!["failed to spawn command"@, cause]);
    let failed = shown(
        CommandErrorView::Branch { error: BranchErrorView::Status { status: cause } },
    );
    assert(failed->causes =~= branch + seq!["Command failed with status "@ + cause]);
    let unreadable = shown(
        CommandErrorView::Branch { error: BranchErrorView::InvalidUtf8 { cause } },
    );
    assert(unreadable->causes =~= branch + seq!["invalid UTF-8 output from command"@, cause]);
    let empty = shown(CommandErrorView::Branch { error: BranchErrorView::Empty });
    assert(empty->causes =~= branch + seq!["empty command output"@]);
}

} // verus!
