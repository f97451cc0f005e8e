//! The `git` invocations that patches are made of.
use crate::handle::{
    handle_text, law_handle_parts, law_handle_text_injective, read_handle,
    written_in_default_encoding, PatchHandle, PatchHandleView,
};
use crate::text::{join, Text};
use vstd::prelude::*;

verus! {

/// Where the standard output of a command goes. Standard error is inherited in either case.
#[derive(Clone, Copy, Debug, PartialEq, Eq, Structural)]
pub enum Stdout {
    /// The user sees the output.
    Inherited,
    /// The output is read by the program.
    Captured,
}

/// One invocation of `git`.
#[derive(Debug)]
pub struct GitCommand {
    /// The arguments that follow `git`.
    pub args: Vec<String>,
    /// A variable that is added to the environment, and its value.
    pub env: Option<(String, String)>,
    /// Where the output goes.
    pub stdout: Stdout,
}

/// The mathematical value of a [`GitCommand`].
pub struct GitCommandView {
    pub args: Seq<Text>,
    pub env: Option<(Text, Text)>,
    pub stdout: Stdout,
}

impl View for GitCommand {
    type V = GitCommandView;

    open spec fn view(&self) -> GitCommandView {
        GitCommandView {
            args: self.args.deep_view(),
            env: self.env.deep_view(),
            stdout: self.stdout,
        }
    }
}

/// The name of the tag that holds a patch.
pub open spec fn tag_name(patch: Text) -> Text {
    "radicle-patch/"@ + patch
}

/// The ref of a peer's patch in the `rad` remote.
pub open spec fn remote_patch_ref(handle: PatchHandleView) -> Text {
    "remotes/"@ + handle.peer_id + "/tags/radicle-patch/"@ + handle.name
}

/// The ref of a peer's patch in the local repository.
pub open spec fn local_patch_ref(handle: PatchHandleView) -> Text {
    "tags/radicle-patch/"@ + handle.peer_id + "/"@ + handle.name
}

/// The environment that makes `git` use the Radicle home `rad_home`.
pub open spec fn rad_home_env(rad_home: Option<Text>) -> Option<(Text, Text)> {
    match rad_home {
        Some(path) => Some(("RAD_HOME"@, path)),
        None => None,
    }
}

/// `--force`, if it is wanted.
pub open spec fn force_option(force: bool) -> Seq<Text> {
    if force {
        seq!["--force"@]
    } else {
        seq![]
    }
}

/// `--message` and the message, if there is one.
pub open spec fn message_options(message: Option<Text>) -> Seq<Text> {
    match message {
        Some(text) => seq!["--message"@, text],
        None => seq![],
    }
}

/// The command that prints the name of the current branch.
pub open spec fn branch_command() -> GitCommandView {
    GitCommandView {
        args: seq!["branch"@, "--show-current"@],
        env: None,
        stdout: Stdout::Captured,
    }
}

/// The command that tags the current head as the patch.
pub open spec fn tag_command(patch: Text, message: Option<Text>, force: bool) -> GitCommandView {
    GitCommandView {
        args: seq!["tag"@, "--annotate"@] + force_option(force) + message_options(message)
            + seq![tag_name(patch)],
        env: None,
        stdout: Stdout::Inherited,
    }
}

/// The command that publishes the tag of the patch.
pub open spec fn push_command(patch: Text, force: bool, rad_home: Option<Text>) -> GitCommandView {
    GitCommandView {
        args: seq!["push"@] + force_option(force) + seq!["rad"@, "tag"@, tag_name(patch)],
        env: rad_home_env(rad_home),
        stdout: Stdout::Inherited,
    }
}

/// The command that fetches a patch of a peer.
pub open spec fn fetch_command(handle: PatchHandleView, rad_home: Option<Text>) -> GitCommandView {
    GitCommandView {
        args: seq![
            "fetch"@,
            "rad"@,
            "--force"@,
            remote_patch_ref(handle) + ":"@ + local_patch_ref(handle),
        ],
        env: rad_home_env(rad_home),
        stdout: Stdout::Inherited,
    }
}

/// Makes the name of the tag that holds a patch.
pub fn patch_tag_name(patch: &str) -> (tag: String)
    ensures
        tag@ == tag_name(patch@),
{
    join("radicle-patch/", patch)
}

fn rad_home_variable(rad_home: Option<String>) -> (env: Option<(String, String)>)
    ensures
        env.deep_view() == rad_home_env(rad_home.deep_view()),
{
    match rad_home {
        Some(path) => Some(("RAD_HOME".to_string(), path)),
        None => None,
    }
}

/// Makes the command that prints the name of the current branch.
pub fn show_branch() -> (command: GitCommand)
    ensures
        command@ == branch_command(),
{
    let command = GitCommand {
        args: vec!["branch".to_string(), "--show-current".to_string()],
        env: None,
        stdout: Stdout::Captured,
    };
    assert(command@.args =~= branch_command().args);
    command
}

/// Makes the command that tags the current head as the patch. Without a message, `git` opens an
/// editor for it.
pub fn tag_patch(patch: &str, message: Option<String>, force: bool) -> (command: GitCommand)
    ensures
        command@ == tag_command(patch@, message.deep_view(), force),
{
    let mut args: Vec<String> = vec!["tag".to_string(), "--annotate".to_string()];
    if force {
        args.push("--force".to_string());
    }
    let ghost text = message.deep_view();
    if let Some(message) = message {
        args.push("--message".to_string());
        args.push(message);
    }
    args.push(patch_tag_name(patch));
    let command = GitCommand { args, env: None, stdout: Stdout::Inherited };
    assert(command@.args =~= tag_command(patch@, text, force).args);
    command
}

/// Makes the command that publishes the tag of the patch.
pub fn push_patch(patch: &str, force: bool, rad_home: Option<String>) -> (command: GitCommand)
    ensures
        command@ == push_command(patch@, force, rad_home.deep_view()),
{
    let ghost home = rad_home.deep_view();
    let mut args: Vec<String> = vec!["push".to_string()];
    if force {
        args.push("--force".to_string());
    }
    args.push("rad".to_string());
    args.push("tag".to_string());
    args.push(patch_tag_name(patch));
    let command = GitCommand {
        args,
        env: rad_home_variable(rad_home),
        stdout: Stdout::Inherited,
    };
    assert(command@.args =~= push_command(patch@, force, home).args);
    command
}

/// Makes the command that fetches a patch of a peer.
pub fn fetch_tag(handle: &PatchHandle, rad_home: Option<String>) -> (command: GitCommand)
    ensures
        command@ == fetch_command(handle@, rad_home.deep_view()),
{
    let ghost home = rad_home.deep_view();
    let mut refspec = join("remotes/", handle.peer_id.as_str());
    refspec.append("/tags/radicle-patch/");
    refspec.append(handle.name.as_str());
    assert(refspec@ == remote_patch_ref(handle@));
    let mut local = join("tags/radicle-patch/", handle.peer_id.as_str());
    local.append("/");
    local.append(handle.name.as_str());
    assert(local@ == local_patch_ref(handle@));
    refspec.append(":");
    refspec.append(local.as_str());
    let command = GitCommand {
        args: vec!["fetch".to_string(), "rad".to_string(), "--force".to_string(), refspec],
        env: rad_home_variable(rad_home),
        stdout: Stdout::Inherited,
    };
    assert(command@.args =~= fetch_command(handle@, home).args);
    command
}

/// The tag that a fetch creates has the name `radicle-patch/<peer id>/<patch name>`.
pub proof fn law_fetched_tag_name(handle: PatchHandleView)
    ensures
        local_patch_ref(handle) == "tags/"@ + tag_name(handle_text(handle)),
{
    reveal_strlit("tags/radicle-patch/");
    reveal_strlit("tags/");
    reveal_strlit("radicle-patch/");
    assert(local_patch_ref(handle) =~= "tags/"@ + tag_name(handle_text(handle)));
}

/// The tag that a fetch creates is named after the handle as the user has written it, if the peer
/// ID was written in its default encoding: `radicle-patch/<PATCH_HANDLE>`.
pub proof fn law_fetched_tag_named_as_written(
    text: Text,
    decode: spec_fn(Text) -> Result<Text, Text>,
)
    requires
        read_handle(text, decode) is Ok,
        written_in_default_encoding(text, decode),
    ensures
        local_patch_ref(read_handle(text, decode)->Ok_0) == "tags/"@ + tag_name(text),
{
    let handle = read_handle(text, decode)->Ok_0;
    law_handle_parts(text, decode);
    law_fetched_tag_name(handle);
    assert(handle_text(handle) == text);
}

/// Fetches of different handles create different tags, where no peer ID holds a `/`.
pub proof fn law_fetched_tags_differ(first: PatchHandleView, second: PatchHandleView)
    requires
        !first.peer_id.contains('/'),
        !second.peer_id.contains('/'),
        first != second,
    ensures
        local_patch_ref(first) != local_patch_ref(second),
{
    if local_patch_ref(first) == local_patch_ref(second) {
        law_fetched_tag_name(first);
        law_fetched_tag_name(second);
        let prefix = "tags/"@.len() as int;
        assert(local_patch_ref(first).skip(prefix) =~= tag_name(handle_text(first)));
        assert(local_patch_ref(second).skip(prefix) =~= tag_name(handle_text(second)));
        law_tag_name_injective(handle_text(first), handle_text(second));
        law_handle_text_injective(first, second);
    }
}

/// Fetches of handles that the user has written differently create different tags, if the peer
/// IDs were written in their default encoding. Nothing else needs to be known of peer IDs.
pub proof fn law_written_handles_have_own_tags(
    first: Text,
    second: Text,
    decode: spec_fn(Text) -> Result<Text, Text>,
)
    requires
        read_handle(first, decode) is Ok,
        read_handle(second, decode) is Ok,
        written_in_default_encoding(first, decode),
        written_in_default_encoding(second, decode),
        first != second,
    ensures
        local_patch_ref(read_handle(first, decode)->Ok_0) != local_patch_ref(
            read_handle(second, decode)->Ok_0,
        ),
{
    law_fetched_tag_named_as_written(first, decode);
    law_fetched_tag_named_as_written(second, decode);
    let prefix = "tags/"@.len() as int;
    assert(("tags/"@ + tag_name(first)).skip(prefix) =~= tag_name(first));
    assert(("tags/"@ + tag_name(second)).skip(prefix) =~= tag_name(second));
    if tag_name(first) == tag_name(second) {
        law_tag_name_injective(first, second);
    }
}

/// What a fetch asks for is the tag under which the peer publishes a patch of that name.
pub proof fn law_fetch_finds_published_tag(handle: PatchHandleView)
    ensures
        remote_patch_ref(handle) == "remotes/"@ + handle.peer_id + "/tags/"@ + tag_name(handle.name),
{
    reveal_strlit("/tags/radicle-patch/");
    reveal_strlit("/tags/");
    reveal_strlit("radicle-patch/");
    assert(remote_patch_ref(handle) =~= "remotes/"@ + handle.peer_id + "/tags/"@ + tag_name(
        handle.name,
    ));
}

/// The patch has one tag: the one that is created is the one that is published.
pub proof fn law_pushed_tag_is_created_tag(
    patch: Text,
    message: Option<Text>,
    force: bool,
    rad_home: Option<Text>,
)
    ensures
        tag_command(patch, message, force).args.last() == tag_name(patch),
        push_command(patch, force, rad_home).args.last() == tag_name(patch),
{
}

/// Tags of different patches have different names.
pub proof fn law_tag_name_injective(first: Text, second: Text)
    requires
        tag_name(first) == tag_name(second),
    ensures
        first == second,
{
    let prefix = "radicle-patch/"@.len() as int;
    assert(tag_name(first).skip(prefix) =~= first);
    assert(tag_name(second).skip(prefix) =~= second);
}

/// A tag is created with the given message; where none is given no `--message` is passed, so
/// that `git` opens an editor.
pub proof fn law_message_option(patch: Text, message: Option<Text>, force: bool)
    ensures
        ({
            let args = tag_command(patch, message, force).args;
            match message {
                Some(text) => args[args.len() - 3] == "--message"@ && args[args.len() - 2] == text,
                None => !args.contains("--message"@),
            }
        }),
{
    let args = tag_command(patch, message, force).args;
    if message is None {
        reveal_strlit("--message");
        reveal_strlit("tag");
        reveal_strlit("--annotate");
        reveal_strlit("--force");
        reveal_strlit("radicle-patch/");
        assert forall|i: int| 0 <= i < args.len() implies args[i] != "--message"@ by {
            if i == args.len() - 1 {
                assert(args[i][0] == 'r');
            } else if i == 0 {
                assert(args[i].len() == 3);
            } else if i == 1 {
                assert(args[i].len() == 10);
            } else {
                assert(args[i].len() == 7);
            }
        }
    }
}

/// The Radicle home reaches every invocation that talks to the `rad` remote, under its variable,
/// and no other invocation.
pub proof fn law_rad_home(
    patch: Text,
    message: Option<Text>,
    force: bool,
    handle: PatchHandleView,
    rad_home: Option<Text>,
)
    ensures
        push_command(patch, force, rad_home).env == rad_home_env(rad_home),
        fetch_command(handle, rad_home).env == rad_home_env(rad_home),
        rad_home matches Some(path) ==> rad_home_env(rad_home) == Some(("RAD_HOME"@, path)),
        rad_home is None ==> rad_home_env(rad_home) is None,
        branch_command().env is None,
        tag_command(patch, message, force).env is None,
{
}

/// An invocation is seen as its arguments, its environment and where its output goes.
pub proof fn law_view_of_command(command: GitCommand)
    ensures
        command@.args == command.args.deep_view(),
        command@.env == command.env.deep_view(),
        command@.stdout == command.stdout,
{
}

/// The tag of a patch is `radicle-patch/` followed by the name of the patch.
pub proof fn law_tag_name(patch: Text)
    ensures
        ({
            let prefix = "radicle-patch/"@.len() as int;
            &&& tag_name(patch).len() == prefix + patch.len()
            &&& tag_name(patch).take(prefix) == "radicle-patch/"@
            &&& tag_name(patch).skip(prefix) == patch
        }),
{
    let prefix = "radicle-patch/"@.len() as int;
    assert(tag_name(patch).take(prefix) =~= "radicle-patch/"@);
    assert(tag_name(patch).skip(prefix) =~= patch);
}

/// The current branch is asked for with `git branch --show-current`, whose output is read.
pub proof fn law_branch_arguments()
    ensures
        branch_command().args.len() == 2,
        branch_command().args[0] == "branch"@,
        branch_command().args[1] == "--show-current"@,
        branch_command().env is None,
        branch_command().stdout == Stdout::Captured,
{
}

/// A patch is tagged with `git tag --annotate`, with `--force` right behind it exactly if that is
/// wanted, with `--message` and the message exactly if there is one, and last with
/// `radicle-patch/` and the name of the patch, whatever that is. Nothing is passed on in the
/// environment, and the user sees the output.
pub proof fn law_tag_arguments(patch: Text, message: Option<Text>, force: bool)
    ensures
        ({
            let command = tag_command(patch, message, force);
            let args = command.args;
            let forced: int = if force {
                1
            } else {
                0
            };
            let worded: int = if message is Some {
                2
            } else {
                0
            };
            &&& args.len() == 3 + forced + worded
            &&& args[0] == "tag"@
            &&& args[1] == "--annotate"@
            &&& force ==> args[2] == "--force"@
            &&& message matches Some(text) ==> args[2 + forced] == "--message"@ && args[3 + forced]
                == text
            &&& args[args.len() - 1] == "radicle-patch/"@ + patch
            &&& command.env is None
            &&& command.stdout == Stdout::Inherited
        }),
{
}

/// A patch is published with `git push`, with `--force` right behind it exactly if that is wanted,
/// and then with `rad`, `tag` and `radicle-patch/` and the name of the patch, whatever that is. The
/// arguments do not depend on the Radicle home, which is passed on as `RAD_HOME` exactly if it is
/// given. The user sees the output.
pub proof fn law_push_arguments(
    patch: Text,
    force: bool,
    rad_home: Option<Text>,
    other_rad_home: Option<Text>,
)
    ensures
        ({
            let command = push_command(patch, force, rad_home);
            let args = command.args;
            &&& args.len() == if force {
                5int
            } else {
                4
            }
            &&& args[0] == "push"@
            &&& force ==> args[1] == "--force"@
            &&& args[args.len() - 3] == "rad"@
            &&& args[args.len() - 2] == "tag"@
            &&& args[args.len() - 1] == "radicle-patch/"@ + patch
            &&& args == push_command(patch, force, other_rad_home).args
            &&& rad_home matches Some(home) ==> command.env == Some(("RAD_HOME"@, home))
            &&& rad_home is None ==> command.env is None
            &&& command.stdout == Stdout::Inherited
        }),
{
}

/// A patch is fetched with `git fetch rad --force` and a refspec, whose source is the patch among
/// the tags of the peer and whose destination is a tag that names the peer and the patch. The
/// arguments do not depend on the Radicle home, which is passed on as `RAD_HOME` exactly if it is
/// given. The user sees the output.
pub proof fn law_fetch_arguments(
    handle: PatchHandleView,
    rad_home: Option<Text>,
    other_rad_home: Option<Text>,
)
    ensures
        ({
            let command = fetch_command(handle, rad_home);
            let args = command.args;
            let source = "remotes/"@ + handle.peer_id + "/tags/radicle-patch/"@ + handle.name;
            let destination = "tags/radicle-patch/"@ + handle.peer_id + "/"@ + handle.name;
            &&& args.len() == 4
            &&& args[0] == "fetch"@
            &&& args[1] == "rad"@
            &&& args[2] == "--force"@
            &&& args[3] == source + ":"@ + destination
            &&& args == fetch_command(handle, other_rad_home).args
            &&& rad_home matches Some(home) ==> command.env == Some(("RAD_HOME"@, home))
            &&& rad_home is None ==> command.env is None
            &&& command.stdout == Stdout::Inherited
        }),
{
}

/// A patch of a peer is found under the peer in the `rad` remote, and under a tag that names the
/// peer in the local repository.
pub proof fn law_refs_of_patch(handle: PatchHandleView)
    ensures
        remote_patch_ref(handle) == "remotes/"@ + handle.peer_id + "/tags/radicle-patch/"@
            + handle.name,
        local_patch_ref(handle) == "tags/radicle-patch/"@ + handle.peer_id + "/"@ + handle.name,
{
}

} // verus!
