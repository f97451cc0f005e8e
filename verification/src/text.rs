//! Splitting and joining text.
use vstd::prelude::*;
use vstd::utf8::{encode_utf8, valid_utf8};

verus! {

/// The mathematical value of a piece of text.
pub type Text = Seq<char>;

/// The position of the first `wanted` in `text`, or the length of `text` if there is none.
pub open spec fn first_position(text: Text, wanted: char) -> int
    decreases text.len(),
{
    if text.len() == 0 || text[0] == wanted {
        0
    } else {
        1 + first_position(text.drop_first(), wanted)
    }
}

/// `first_position` is the least position that holds the wanted character.
pub proof fn lemma_first_position(text: Text, wanted: char)
    ensures
        0 <= first_position(text, wanted) <= text.len(),
        first_position(text, wanted) < text.len() ==> text[first_position(text, wanted)] == wanted,
        forall|i: int| 0 <= i < first_position(text, wanted) ==> text[i] != wanted,
        text.contains(wanted) <==> first_position(text, wanted) < text.len(),
    decreases text.len(),
{
    if text.len() > 0 && text[0] != wanted {
        let rest = text.drop_first();
        lemma_first_position(rest, wanted);
        assert forall|i: int| 0 <= i < first_position(text, wanted) implies text[i] != wanted by {
            if i > 0 {
                assert(rest[i - 1] == text[i]);
            }
        }
    }
    assert(text.contains(wanted) ==> first_position(text, wanted) < text.len());
}

/// A position at which `wanted` stands and before which it does not occur is the first one.
pub proof fn lemma_first_position_unique(text: Text, wanted: char, at: int)
    requires
        0 <= at <= text.len(),
        at < text.len() ==> text[at] == wanted,
        forall|i: int| 0 <= i < at ==> text[i] != wanted,
    ensures
        first_position(text, wanted) == at,
{
    lemma_first_position(text, wanted);
    let first = first_position(text, wanted);
    if first < at {
        assert(text[first] != wanted);
    }
}

/// Counts the characters in front of the first `wanted`.
fn find(text: &str, wanted: char) -> (at: usize)
    ensures
        at == first_position(text@, wanted),
        at <= text@.len(),
{
    let count: usize = text.unicode_len();
    let mut at: usize = 0;
    for c in it: text.chars()
        invariant
            at == it.index(),
            it.seq() == text@,
            count == text@.len(),
            forall|i: int| 0 <= i < at ==> text@[i] != wanted,
    {
        if c == wanted {
            proof {
                lemma_first_position_unique(text@, wanted, at as int);
            }
            return at;
        }
        at = at + 1;
    }
    proof {
        lemma_first_position_unique(text@, wanted, at as int);
    }
    at
}

/// What stands in front of the first `separator`, and what stands behind it.
pub open spec fn split_first(text: Text, separator: char) -> Option<(Text, Text)> {
    let at = first_position(text, separator);
    if at < text.len() {
        Some((text.take(at), text.skip(at + 1)))
    } else {
        None
    }
}

/// Splits `text` at the first `separator`; there is nothing to return if it does not occur.
pub fn split_once(text: &str, separator: char) -> (parts: Option<(&str, &str)>)
    ensures
        parts is Some <==> text@.contains(separator),
        parts matches Some(pair) ==> split_first(text@, separator) == Some((pair.0@, pair.1@)),
        parts is None ==> split_first(text@, separator) is None,
{
    let count: usize = text.unicode_len();
    let at: usize = find(text, separator);
    proof {
        lemma_first_position(text@, separator);
    }
    if at < count {
        Some((text.substring_char(0, at), text.substring_char(at + 1, count)))
    } else {
        None
    }
}

/// The first line of `text` without its line ending, which is a line feed or a carriage return
/// and a line feed. A carriage return that no line feed follows belongs to the line.
pub open spec fn leading_line(text: Text) -> Option<Text> {
    let end = first_position(text, '\n');
    if text.len() == 0 {
        None
    } else if 0 < end < text.len() && text[end - 1] == '\r' {
        Some(text.take(end - 1))
    } else {
        Some(text.take(end))
    }
}

/// Returns the first line of `text`; empty text has none.
pub fn first_line(text: &str) -> (line: Option<&str>)
    ensures
        line is Some <==> leading_line(text@) is Some,
        line matches Some(found) ==> leading_line(text@) == Some(found@),
{
    let count: usize = text.unicode_len();
    if count == 0 {
        return None;
    }
    let end: usize = find(text, '\n');
    proof {
        lemma_first_position(text@, '\n');
    }
    if 0 < end && end < count && text.get_char(end - 1) == '\r' {
        Some(text.substring_char(0, end - 1))
    } else {
        Some(text.substring_char(0, end))
    }
}

/// A line holds no line feed.
pub proof fn law_line_has_no_line_feed(text: Text)
    ensures
        leading_line(text) matches Some(line) ==> !line.contains('\n'),
{
    lemma_first_position(text, '\n');
    if let Some(line) = leading_line(text) {
        assert forall|i: int| 0 <= i < line.len() implies line[i] != '\n' by {
            assert(line[i] == text[i]);
        }
    }
}

/// A line that is written with a line feed is read back, whatever follows, unless it holds a
/// line feed or ends with a carriage return, which would count as part of the line ending.
pub proof fn law_line_read_back(line: Text, rest: Text)
    requires
        !line.contains('\n'),
        line.len() > 0 ==> line.last() != '\r',
    ensures
        leading_line(line + seq!['\n'] + rest) == Some(line),
{
    let text = line + seq!['\n'] + rest;
    let end = line.len() as int;
    assert(text[end] == '\n');
    assert forall|i: int| 0 <= i < end implies text[i] != '\n' by {
        assert(text[i] == line[i]);
    }
    lemma_first_position_unique(text, '\n', end);
    assert(text.take(end) =~= line);
}

/// Joins two pieces of text.
pub fn join(first: &str, second: &str) -> (joined: String)
    ensures
        joined@ == first@ + second@,
{
    let mut joined = first.to_owned();
    joined.append(second);
    joined
}

/// Copies pieces of text.
pub(crate) fn copy_texts(texts: &Vec<String>) -> (copy: Vec<String>)
    ensures
        copy.deep_view() == texts.deep_view(),
{
    let copy = texts.clone();
    assert(copy.deep_view() =~= texts.deep_view());
    copy
}

/// What `std::str::from_utf8` says of bytes that are not UTF-8.
pub uninterp spec fn utf8_complaint(bytes: Seq<u8>) -> Text;

/// Reads bytes as text, with `std::str::from_utf8`.
///
/// Trusted: the call succeeds exactly on valid UTF-8, the text it then returns is encoded by
/// those bytes, and otherwise the error's message depends on the bytes alone.
#[verifier::external_body]
pub(crate) fn from_utf8(bytes: &[u8]) -> (text: Result<&str, String>)
    ensures
        text is Ok <==> valid_utf8(bytes@),
        text matches Ok(read) ==> encode_utf8(read@) == bytes@,
        text matches Err(complaint) ==> complaint@ == utf8_complaint(bytes@),
{
    std::str::from_utf8(bytes).map_err(|error| error.to_string())
}

/// Splitting takes out one separator: what stands in front of it, the separator and what stands
/// behind it make up the text, and there is no separator in front of it. Only a text without a
/// separator is not split.
pub proof fn law_split_at_first(text: Text, separator: char)
    ensures
        match split_first(text, separator) {
            Some((front, back)) => {
                &&& text == front + seq![separator] + back
                &&& forall|i: int| 0 <= i < front.len() ==> front[i] != separator
            },
            None => forall|i: int| 0 <= i < text.len() ==> text[i] != separator,
        },
{
    lemma_first_position(text, separator);
    if let Some((front, back)) = split_first(text, separator) {
        assert(text =~= front + seq![separator] + back);
    }
}

/// The first line is the beginning of the text up to a line feed, or up to a carriage return and a
/// line feed, or up to the end, and holds no line feed. Only the empty text has no first line.
pub proof fn law_first_line(text: Text)
    ensures
        match leading_line(text) {
            Some(line) => {
                let end = line.len() as int;
                &&& text.len() > 0
                &&& end <= text.len()
                &&& forall|i: int| 0 <= i < end ==> line[i] == #[trigger] text[i] && text[i] != '\n'
                &&& {
                    ||| end == text.len()
                    ||| text[end] == '\n' && (end > 0 ==> text[end - 1] != '\r')
                    ||| end + 1 < text.len() && text[end] == '\r' && text[end + 1] == '\n'
                }
            },
            None => text.len() == 0,
        },
{
    lemma_first_position(text, '\n');
}

} // verus!
