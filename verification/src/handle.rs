//! Patch handles, which name a patch of a peer.
use crate::text::{first_position, join, lemma_first_position_unique, split_first, split_once, Text};
use vstd::prelude::*;

verus! {

/// A patch as named on the command line: the peer that publishes it and its name there.
#[derive(Debug)]
pub struct PatchHandle {
    /// The peer's ID in its default encoding.
    pub peer_id: String,
    /// The name of the patch.
    pub name: String,
}

/// The mathematical value of a [`PatchHandle`].
pub struct PatchHandleView {
    pub peer_id: Text,
    pub name: Text,
}

impl View for PatchHandle {
    type V = PatchHandleView;

    open spec fn view(&self) -> PatchHandleView {
        PatchHandleView { peer_id: self.peer_id@, name: self.name@ }
    }
}

/// The text `<peer id>/<patch name>` of a handle.
pub open spec fn handle_text(handle: PatchHandleView) -> Text {
    handle.peer_id + "/"@ + handle.name
}

/// A handle whose peer ID has not been decoded yet.
#[derive(Debug)]
pub struct HandleParts {
    /// The text in front of the first `/`.
    pub peer_id: String,
    /// The text behind the first `/`.
    pub name: String,
}

/// The complaint about a handle without a `/`.
pub open spec fn missing_separator() -> Text {
    "missing `/` separator"@
}

/// The complaint about a handle whose peer ID cannot be decoded.
pub open spec fn invalid_peer_id(cause: Text) -> Text {
    "invalid peer ID: "@ + cause
}

/// The result of reading a handle, where `decode` takes the text of a peer ID to its default
/// encoding or to the reason why it is none.
pub open spec fn read_handle(
    text: Text,
    decode: spec_fn(Text) -> Result<Text, Text>,
) -> Result<PatchHandleView, Text> {
    match split_first(text, '/') {
        None => Err(missing_separator()),
        Some((peer_id, name)) => decoded_handle(name, decode(peer_id)),
    }
}

/// The handle of a decoded peer ID and a patch name.
pub open spec fn decoded_handle(
    name: Text,
    peer_id: Result<Text, Text>,
) -> Result<PatchHandleView, Text> {
    match peer_id {
        Ok(peer_id) => Ok(PatchHandleView { peer_id, name }),
        Err(cause) => Err(invalid_peer_id(cause)),
    }
}

/// The texts in a result.
pub open spec fn text_result(result: Result<String, String>) -> Result<Text, Text> {
    match result {
        Ok(text) => Ok(text@),
        Err(cause) => Err(cause@),
    }
}

impl HandleParts {
    /// Splits the text of a handle at its first `/`.
    pub fn from_str(text: &str) -> (parts: Result<HandleParts, String>)
        ensures
            match parts {
                Ok(parts) => split_first(text@, '/') == Some((parts.peer_id@, parts.name@)),
                Err(complaint) => !text@.contains('/') && complaint@ == missing_separator(),
            },
            parts is Ok <==> text@.contains('/'),
    {
        match split_once(text, '/') {
            Some((peer_id, name)) => Ok(
                HandleParts { peer_id: peer_id.to_owned(), name: name.to_owned() },
            ),
            None => Err("missing `/` separator".to_string()),
        }
    }
}

impl PatchHandle {
    /// Completes a handle with what decoding its peer ID gave: the peer ID in its default
    /// encoding, or the reason why the text is no peer ID.
    pub fn from_parts(parts: HandleParts, peer_id: Result<String, String>) -> (handle: Result<
        PatchHandle,
        String,
    >)
        ensures
            match handle {
                Ok(handle) => decoded_handle(parts.name@, text_result(peer_id)) == Ok::<
                    PatchHandleView,
                    Text,
                >(handle@),
                Err(complaint) => decoded_handle(parts.name@, text_result(peer_id)) == Err::<
                    PatchHandleView,
                    Text,
                >(complaint@),
            },
    {
        match peer_id {
            Ok(peer_id) => Ok(PatchHandle { peer_id, name: parts.name }),
            Err(cause) => Err(join("invalid peer ID: ", cause.as_str())),
        }
    }
}

/// A handle is read back from its text, if its peer ID has no `/` and decodes to itself, as the
/// default encoding of a peer ID does.
pub proof fn law_handle_round_trip(
    handle: PatchHandleView,
    decode: spec_fn(Text) -> Result<Text, Text>,
)
    requires
        !handle.peer_id.contains('/'),
        decode(handle.peer_id) == Ok::<Text, Text>(handle.peer_id),
    ensures
        read_handle(handle_text(handle), decode) == Ok::<PatchHandleView, Text>(handle),
{
    reveal_strlit("/");
    let text = handle_text(handle);
    let at = handle.peer_id.len() as int;
    assert(text[at] == '/');
    assert forall|i: int| 0 <= i < at implies text[i] != '/' by {
        assert(text[i] == handle.peer_id[i]);
    }
    lemma_first_position_unique(text, '/', at);
    assert(text.take(at) =~= handle.peer_id);
    assert(text.skip(at + 1) =~= handle.name);
}

/// Whether the peer ID of a handle was written as it is shown, which is in its default encoding.
pub open spec fn written_in_default_encoding(
    text: Text,
    decode: spec_fn(Text) -> Result<Text, Text>,
) -> bool {
    let written = text.take(first_position(text, '/'));
    decode(written) == Ok::<Text, Text>(written)
}

/// Handles with the same text are the same, where no peer ID holds a `/`.
pub proof fn law_handle_text_injective(first: PatchHandleView, second: PatchHandleView)
    requires
        !first.peer_id.contains('/'),
        !second.peer_id.contains('/'),
        handle_text(first) == handle_text(second),
    ensures
        first == second,
{
    let decode = |peer_id: Text| Ok::<Text, Text>(peer_id);
    law_handle_round_trip(first, decode);
    law_handle_round_trip(second, decode);
}

/// Every text that is read as a handle is the peer ID as it was written, a `/` and the name of
/// the patch; further `/` belong to the name.
pub proof fn law_handle_parts(text: Text, decode: spec_fn(Text) -> Result<Text, Text>)
    requires
        read_handle(text, decode) is Ok,
    ensures
        ({
            let handle = read_handle(text, decode)->Ok_0;
            let written = text.take(first_position(text, '/'));
            &&& text == written + "/"@ + handle.name
            &&& !written.contains('/')
            &&& decode(written) == Ok::<Text, Text>(handle.peer_id)
        }),
{
    reveal_strlit("/");
    crate::text::lemma_first_position(text, '/');
    let at = first_position(text, '/');
    let handle = read_handle(text, decode)->Ok_0;
    assert(text =~= text.take(at) + "/"@ + handle.name);
}

/// A handle is seen as its peer ID and its name.
pub proof fn law_view_of_handle(handle: PatchHandle)
    ensures
        handle@.peer_id == handle.peer_id@,
        handle@.name == handle.name@,
{
}

/// The text of a handle is its peer ID, a `/` and its name, and nothing else.
pub proof fn law_handle_text(handle: PatchHandleView)
    ensures
        ({
            let text = handle_text(handle);
            let at = handle.peer_id.len() as int;
            &&& text.len() == at + 1 + handle.name.len()
            &&& text.take(at) == handle.peer_id
            &&& text[at] == '/'
            &&& text.skip(at + 1) == handle.name
        }),
{
    reveal_strlit("/");
    let text = handle_text(handle);
    let at = handle.peer_id.len() as int;
    assert(text.take(at) =~= handle.peer_id);
    assert(text.skip(at + 1) =~= handle.name);
}

/// A handle is read exactly if it has a `/` and the text in front of the first one is a peer ID.
/// The complaint about any other text says which of the two is missing, and why the text is no
/// peer ID.
pub proof fn law_complaints_about_handles(
    peer_id: Text,
    name: Text,
    decode: spec_fn(Text) -> Result<Text, Text>,
)
    requires
        !peer_id.contains('/'),
    ensures
        read_handle(peer_id, decode) == Err::<PatchHandleView, Text>("missing `/` separator"@),
        missing_separator() == "missing `/` separator"@,
        match decode(peer_id) {
            Ok(decoded) => read_handle(peer_id + seq!['/'] + name, decode) == Ok::<
                PatchHandleView,
                Text,
            >(PatchHandleView { peer_id: decoded, name }),
            Err(cause) => read_handle(peer_id + seq!['/'] + name, decode) == Err::<
                PatchHandleView,
                Text,
            >("invalid peer ID: "@ + cause),
        },
{
    let text = peer_id + seq!['/'] + name;
    let at = peer_id.len() as int;
    crate::text::lemma_first_position(peer_id, '/');
    assert(text[at] == '/');
    assert forall|i: int| 0 <= i < at implies text[i] != '/' by {
        assert(text[i] == peer_id[i]);
    }
    lemma_first_position_unique(text, '/', at);
    assert(text.take(at) =~= peer_id);
    assert(text.skip(at + 1) =~= name);
}

/// A handle is completed with the decoded peer ID and keeps its name, and is refused with the
/// reason if there is none.
pub proof fn law_completed_handle(name: Text, peer_id: Result<String, String>)
    ensures
        match peer_id {
            Ok(decoded) => {
                let handle = decoded_handle(name, text_result(peer_id));
                &&& handle is Ok
                &&& handle->Ok_0.peer_id == decoded@
                &&& handle->Ok_0.name == name
            },
            Err(cause) => decoded_handle(name, text_result(peer_id)) == Err::<
                PatchHandleView,
                Text,
            >("invalid peer ID: "@ + cause@),
        },
{
}

} // verus!
