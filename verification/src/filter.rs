//! Filters of events, and the texts that they are read from.
use crate::text::{
    first_position, lemma_first_position, lemma_first_position_unique, split_first, split_once, Text,
};
use tracing_subscriber::filter::{Directive, ParseError};
use tracing_subscriber::EnvFilter;
use vstd::prelude::*;
use vstd::utf8::{encode_scalar, encode_utf8};

verus! {

/// The filter that decides which events are logged.
#[verifier::external_type_specification]
#[verifier::external_body]
pub struct ExEnvFilter(EnvFilter);

/// Why a text is no filter directive.
#[verifier::external_type_specification]
#[verifier::external_body]
pub struct ExParseError(ParseError);

/// One directive of a filter.
#[verifier::external_type_specification]
#[verifier::external_body]
pub struct ExDirective(Directive);

/// What a directive is about: in which of the two tables of a filter it stands, where `true` is
/// the one for directives that are matched against spans, and its target, span and fields. Each
/// field is given by a text that tells it from those that the table tells it from: by its name, and
/// in the table for spans by its name and value.
pub type Subject = (bool, Option<Text>, Option<Text>, Seq<Text>);

/// All directives of a filter: what they are about, and their levels by their lower-case names.
pub uninterp spec fn filter_directives(filter: EnvFilter) -> Map<Subject, Seq<char>>;

/// What a directive is about, in the table that it is added to, and its level by its lower-case
/// name.
pub uninterp spec fn directive_parts(directive: Directive) -> (Subject, Seq<char>);

/// The parts of the directive that `Directive::from_str` reads from a text, if it is one.
pub uninterp spec fn read_parts(text: Seq<char>) -> Option<(Subject, Seq<char>)>;

/// The directives of the filter that `EnvFilter::new` reads from a text.
pub uninterp spec fn read_directives(directives: Seq<char>) -> Map<Subject, Seq<char>>;

/// What a directive is about that has a target alone, or nothing for everything.
pub open spec fn plain_subject(target: Option<Text>) -> Subject {
    (false, target, None, Seq::empty())
}

/// The names of the levels.
pub open spec fn level_name(level: Text) -> bool {
    ||| level == "off"@
    ||| level == "error"@
    ||| level == "warn"@
    ||| level == "info"@
    ||| level == "debug"@
    ||| level == "trace"@
}

/// Whether a target is a path of Rust identifiers in lower case.
pub open spec fn path_target(target: Text) -> bool {
    &&& target.len() > 0
    &&& forall|i: int|
        0 <= i < target.len() ==> ('a' <= #[trigger] target[i] <= 'z' || '0' <= target[i] <= '9'
            || target[i] == '_' || target[i] == ':')
}

/// Whether a pair of a target and a level makes a directive.
pub open spec fn plain_directive(directive: (Option<Text>, Text)) -> bool {
    &&& directive.0 matches Some(target) ==> path_target(target)
    &&& level_name(directive.1)
}

/// The text of a directive: `<target>=<level>`, or the level alone.
pub open spec fn directive_text(directive: (Option<Text>, Text)) -> Text {
    match directive.0 {
        Some(target) => target + "="@ + directive.1,
        None => directive.1,
    }
}

/// What a filter holds that plain directives were added to, where a later one overrides an earlier
/// one for its target.
pub open spec fn held(directives: Seq<(Option<Text>, Text)>) -> Map<Subject, Text>
    decreases directives.len(),
{
    if directives.len() == 0 {
        Map::empty()
    } else {
        held(directives.drop_last()).insert(
            plain_subject(directives.last().0),
            directives.last().1,
        )
    }
}

/// Makes a filter without directives, with `EnvFilter::default`.
///
/// Trusted: the filter holds no directive.
#[verifier::external_body]
pub(crate) fn empty_filter() -> (filter: EnvFilter)
    ensures
        filter_directives(filter) == held(Seq::empty()),
{
    EnvFilter::default()
}

/// Reads a directive from a text, with `Directive::from_str`.
///
/// Trusted: whether the text is a directive, and what its parts are, depends on the text alone. A
/// plain directive can be read and has its target and its level. Of the parts of other directives
/// nothing is said.
#[verifier::external_body]
pub(crate) fn read_directive(text: &str) -> (directive: Result<Directive, ParseError>)
    requires
        !text@.contains(','),
        cut_between_characters(text@),
    ensures
        match directive {
            Ok(directive) => read_parts(text@) == Some(directive_parts(directive)),
            Err(_) => read_parts(text@) is None,
        },
        forall|plain: (Option<Text>, Text)|
            plain_directive(plain) && text@ == #[trigger] directive_text(plain) ==> {
                &&& directive is Ok
                &&& directive_parts(directive->Ok_0) == (plain_subject(plain.0), plain.1)
            },
{
    text.parse()
}

/// Adds a directive to a filter, with `EnvFilter::add_directive`.
///
/// Trusted: the directive takes the place of the one about the same, if there is one, and all
/// others are kept.
#[verifier::external_body]
pub(crate) fn add_directive(filter: EnvFilter, directive: Directive) -> (extended: EnvFilter)
    ensures
        filter_directives(extended) == filter_directives(filter).insert(
            directive_parts(directive).0,
            directive_parts(directive).1,
        ),
{
    filter.add_directive(directive)
}

/// The text of directives in a row, with commas between them.
pub open spec fn directives_text(directives: Seq<(Option<Text>, Text)>) -> Text
    decreases directives.len(),
{
    if directives.len() == 0 {
        seq![]
    } else if directives.len() == 1 {
        directive_text(directives[0])
    } else {
        directives_text(directives.drop_last()) + ","@ + directive_text(directives.last())
    }
}

/// Whether a character is white space.
pub open spec fn white_space(c: char) -> bool {
    ||| '\u{9}' <= c <= '\u{d}'
    ||| c == ' '
    ||| c == '\u{85}'
    ||| c == '\u{a0}'
    ||| c == '\u{1680}'
    ||| '\u{2000}' <= c <= '\u{200a}'
    ||| c == '\u{2028}'
    ||| c == '\u{2029}'
    ||| c == '\u{202f}'
    ||| c == '\u{205f}'
    ||| c == '\u{3000}'
}

/// How many characters of white space a directive begins with.
pub open spec fn indentation(directive: Text) -> int
    decreases directive.len(),
{
    if directive.len() == 0 || !white_space(directive[0]) {
        0
    } else {
        1 + indentation(directive.drop_first())
    }
}

/// How many bytes a character takes in UTF-8.
pub open spec fn utf8_width(c: char) -> nat {
    if c <= '\u{7f}' {
        1
    } else if c <= '\u{7ff}' {
        2
    } else if c <= '\u{ffff}' {
        3
    } else {
        4
    }
}

/// How many bytes a text takes in UTF-8.
pub open spec fn byte_count(text: Text) -> nat
    decreases text.len(),
{
    if text.len() == 0 {
        0
    } else {
        byte_count(text.drop_last()) + utf8_width(text.last())
    }
}

/// Whether a position, which counts bytes, falls between characters.
pub open spec fn between_characters(text: Text, position: int) -> bool {
    exists|count: int|
        0 <= count <= text.len() && byte_count(#[trigger] text.take(count)) == position
}

/// The position of the first `wanted` at or behind `start`, or the length of the text if there is
/// none.
pub open spec fn position_from(text: Text, wanted: char, start: int) -> int {
    start + first_position(text.skip(start), wanted)
}

/// Where the span of a directive begins: behind the first `[`, unless a `=` comes before it.
pub open spec fn span_start(directive: Text) -> Option<int> {
    let start = indentation(directive);
    let bracket = position_from(directive, '[', start);
    if bracket < position_from(directive, '=', start) {
        Some(bracket + 1)
    } else {
        None
    }
}

/// Where the part of a directive ends that stands in front of its span, and where its level
/// begins if it has no span.
pub open spec fn target_cuts(directive: Text) -> Seq<int> {
    let start = indentation(directive);
    let bracket = position_from(directive, '[', start);
    let equals = position_from(directive, '=', start);
    if bracket < equals {
        if bracket == start {
            seq![]
        } else {
            seq![bracket]
        }
    } else if start < equals < directive.len() {
        seq![equals, equals + 1]
    } else {
        seq![]
    }
}

/// Where the name of a span begins and ends, and where its field begins and ends, as far as there
/// is an end.
pub open spec fn span_cuts(directive: Text, start: int) -> Seq<int> {
    let close = position_from(directive, ']', start);
    let brace = position_from(directive, '{', start);
    if brace < close {
        let end = position_from(directive, '}', brace + 1);
        if end < directive.len() {
            seq![start, brace, brace + 1, end]
        } else {
            seq![start, brace]
        }
    } else if close < directive.len() {
        seq![start, close]
    } else {
        seq![]
    }
}

/// Where the `=` in front of the level of a directive with a span is: right behind the `]` of the
/// span, which is right behind the `}` if there is a field.
pub open spec fn level_mark(directive: Text, start: int) -> Option<int> {
    let close = position_from(directive, ']', start);
    let brace = position_from(directive, '{', start);
    let end = position_from(directive, '}', brace + 1);
    let behind = if brace >= close {
        close + 1
    } else if end + 1 < directive.len() && directive[end + 1] == ']' {
        end + 2
    } else {
        directive.len() as int
    };
    if behind < directive.len() && directive[behind] == '=' {
        Some(behind)
    } else {
        None
    }
}

/// Where a directive is cut to be read.
pub open spec fn directive_cuts(directive: Text) -> Seq<int> {
    target_cuts(directive) + match span_start(directive) {
        Some(start) => span_cuts(directive, start) + match level_mark(directive, start) {
            Some(mark) => seq![mark + 1],
            None => seq![],
        },
        None => seq![],
    }
}

/// How many bytes there are from the end of the indentation to a character of a directive.
pub open spec fn unindented_position(directive: Text, at: int) -> int {
    byte_count(directive.take(at)) - byte_count(directive.take(indentation(directive)))
}

/// Whether a directive is cut between characters only. It is cut as far from its beginning as the
/// place that is meant is from the end of the indentation.
pub open spec fn cut_between_characters(directive: Text) -> bool {
    let cuts = directive_cuts(directive);
    forall|i: int|
        0 <= i < cuts.len() ==> between_characters(
            directive,
            unindented_position(directive, #[trigger] cuts[i]),
        )
}

/// Whether a text is no directive.
pub open spec fn refused(text: Text) -> bool {
    cut_between_characters(text) && read_parts(text) is None
}

/// Whether a directive is refused because of its first character.
pub open spec fn refused_at_once(directive: Text) -> bool {
    let start = indentation(directive);
    &&& start < directive.len()
    &&& directive[start] != '['
    &&& refused(directive.take(start + 1))
}

/// Whether a directive is refused because of what stands in front of its level.
pub open spec fn refused_before_level(directive: Text) -> bool {
    &&& span_start(directive) is Some
    &&& level_mark(directive, span_start(directive)->0) matches Some(mark) && refused(
        directive.take(mark),
    )
}

/// Whether a directive is never cut inside of a character: all cuts are between characters, or it
/// is refused before one is made that is not.
pub open spec fn readable_directive(directive: Text) -> bool {
    ||| cut_between_characters(directive)
    ||| refused_at_once(directive)
    ||| refused_before_level(directive)
}

/// Whether no directive of a text is cut inside of a character when it is read.
pub open spec fn readable(directives: Text) -> bool
    decreases directives.len(),
{
    match split_first(directives, ',') {
        None => readable_directive(directives),
        Some((first, rest)) => {
            proof {
                lemma_first_position(directives, ',');
            }
            readable_directive(first) && readable(rest)
        },
    }
}

/// Whether directives are what a filter holds that is read from a text of plain directives, if it is
/// one: its directives, in that order, and the level `error` for everything if there are none.
pub open spec fn holds_plain_directives(
    directives: Map<Subject, Text>,
    text: Text,
) -> bool {
    &&& text.len() == 0 ==> directives == held(seq![(None, "error"@)])
    &&& forall|plain: Seq<(Option<Text>, Text)>|
        plain.len() > 0 && (forall|i: int|
            0 <= i < plain.len() ==> plain_directive(#[trigger] plain[i])) && text
            == #[trigger] directives_text(plain) ==> directives == held(plain)
}

/// Reads a filter from a text, with `EnvFilter::new`.
///
/// Trusted: what the filter holds depends on the text alone. It holds plain directives in a row,
/// added in that order, and the level `error` for everything if the text is empty. Of directives
/// that are not plain nothing is said. The call panics exactly on the texts that are not readable.
#[verifier::external_body]
pub(crate) fn read_filter(directives: &str) -> (filter: EnvFilter)
    requires
        readable(directives@),
    ensures
        filter_directives(filter) == read_directives(directives@),
        holds_plain_directives(filter_directives(filter), directives@),
{
    EnvFilter::new(directives)
}

fn is_white_space(c: char) -> (white: bool)
    ensures
        white == white_space(c),
{
    ('\u{9}' <= c && c <= '\u{d}') || c == ' ' || c == '\u{85}' || c == '\u{a0}' || c == '\u{1680}'
        || ('\u{2000}' <= c && c <= '\u{200a}') || c == '\u{2028}' || c == '\u{2029}' || c
        == '\u{202f}' || c == '\u{205f}' || c == '\u{3000}'
}

fn width_in_utf8(c: char) -> (width: u128)
    ensures
        width == utf8_width(c),
{
    if c <= '\u{7f}' {
        1
    } else if c <= '\u{7ff}' {
        2
    } else if c <= '\u{ffff}' {
        3
    } else {
        4
    }
}

/// The bytes of a text with one more character.
proof fn lemma_next_byte_count(text: Text, count: int)
    requires
        0 <= count < text.len(),
    ensures
        byte_count(text.take(count + 1)) == byte_count(text.take(count)) + utf8_width(text[count]),
{
    assert(text.take(count + 1).drop_last() =~= text.take(count));
}

/// A character takes at most four bytes.
proof fn lemma_byte_count_bound(text: Text)
    ensures
        byte_count(text) <= 4 * text.len(),
    decreases text.len(),
{
    if text.len() > 0 {
        lemma_byte_count_bound(text.drop_last());
    }
}

/// The indentation is the longest one: white space alone, and behind it none.
proof fn lemma_indentation(directive: Text)
    ensures
        0 <= indentation(directive) <= directive.len(),
        forall|i: int| 0 <= i < indentation(directive) ==> white_space(#[trigger] directive[i]),
        indentation(directive) < directive.len() ==> !white_space(
            directive[indentation(directive)],
        ),
    decreases directive.len(),
{
    if directive.len() > 0 && white_space(directive[0]) {
        let rest = directive.drop_first();
        lemma_indentation(rest);
        assert forall|i: int| 0 <= i < indentation(directive) implies white_space(
            #[trigger] directive[i],
        ) by {
            if i > 0 {
                assert(rest[i - 1] == directive[i]);
            }
        }
    }
}

fn characters(text: &str) -> (chars: Vec<char>)
    ensures
        chars@ == text@,
{
    let mut chars: Vec<char> = Vec::new();
    for c in it: text.chars()
        invariant
            it.seq() == text@,
            chars@ == text@.take(it.index()),
    {
        chars.push(c);
    }
    assert(text@.take(text@.len() as int) =~= text@);
    chars
}

fn indentation_of(directive: &Vec<char>) -> (count: usize)
    ensures
        count == indentation(directive@),
        count <= directive@.len(),
{
    proof {
        lemma_indentation(directive@);
    }
    let mut count: usize = 0;
    while count < directive.len() && is_white_space(directive[count])
        invariant
            count <= indentation(directive@) <= directive@.len(),
            forall|i: int| 0 <= i < indentation(directive@) ==> white_space(
                #[trigger] directive@[i],
            ),
            indentation(directive@) < directive@.len() ==> !white_space(
                directive@[indentation(directive@)],
            ),
        decreases directive@.len() - count,
    {
        count = count + 1;
    }
    count
}

fn falls_between_characters(text: &Vec<char>, position: u128) -> (falls: bool)
    ensures
        falls == between_characters(text@, position as int),
{
    let mut count: usize = 0;
    let mut bytes: u128 = 0;
    assert(byte_count(text@.take(0)) == 0);
    loop
        invariant
            count <= text@.len(),
            bytes == byte_count(text@.take(count as int)),
            forall|i: int| 0 <= i < count ==> byte_count(#[trigger] text@.take(i)) != position,
        decreases text@.len() - count,
    {
        if bytes == position {
            return true;
        }
        if count == text.len() {
            return false;
        }
        proof {
            lemma_next_byte_count(text@, count as int);
            lemma_byte_count_bound(text@.take(count as int));
        }
        bytes = bytes + width_in_utf8(text[count]);
        count = count + 1;
    }
}

fn find_from(text: &Vec<char>, wanted: char, start: usize) -> (at: usize)
    requires
        start <= text@.len(),
    ensures
        at == position_from(text@, wanted, start as int),
        start <= at <= text@.len(),
{
    let mut at: usize = start;
    let ghost rest = text@.skip(start as int);
    while at < text.len() && text[at] != wanted
        invariant
            start <= at <= text@.len(),
            rest == text@.skip(start as int),
            forall|i: int| 0 <= i < at - start ==> rest[i] != wanted,
        decreases text@.len() - at,
    {
        assert(rest[at - start] == text@[at as int]);
        at = at + 1;
    }
    proof {
        if at < text@.len() {
            assert(rest[at - start] == text@[at as int]);
        }
        lemma_first_position_unique(rest, wanted, at - start);
    }
    at
}

/// The first position at or behind a start.
proof fn lemma_position_from(text: Text, wanted: char, start: int)
    requires
        0 <= start <= text.len(),
    ensures
        start <= position_from(text, wanted, start) <= text.len(),
        position_from(text, wanted, start) < text.len() ==> text[position_from(text, wanted, start)]
            == wanted,
{
    lemma_first_position(text.skip(start), wanted);
}

/// A directive is cut behind its indentation only.
proof fn lemma_cuts_in_range(directive: Text)
    ensures
        forall|i: int|
            0 <= i < directive_cuts(directive).len() ==> indentation(directive)
                <= #[trigger] directive_cuts(directive)[i] <= directive.len(),
{
    lemma_indentation(directive);
    let indented = indentation(directive);
    lemma_position_from(directive, '[', indented);
    lemma_position_from(directive, '=', indented);
    if let Some(start) = span_start(directive) {
        lemma_position_from(directive, ']', start);
        lemma_position_from(directive, '{', start);
        let brace = position_from(directive, '{', start);
        if brace < directive.len() {
            lemma_position_from(directive, '}', brace + 1);
        }
    }
}

fn cuts_of_span(directive: &Vec<char>, start: usize, cuts: &mut Vec<usize>) -> (mark: Option<usize>)
    requires
        start <= directive@.len(),
    ensures
        as_positions(final(cuts)@) == as_positions(old(cuts)@) + span_cuts(
            directive@,
            start as int,
        ),
        match mark {
            Some(mark) => level_mark(directive@, start as int) == Some(mark as int),
            None => level_mark(directive@, start as int) is None,
        },
        mark matches Some(mark) ==> mark < directive@.len(),
{
    let ghost before = cuts@;
    let count = directive.len();
    let close: usize = find_from(directive, ']', start);
    let brace: usize = find_from(directive, '{', start);
    let mut behind: usize = count;
    if brace < close {
        cuts.push(start);
        cuts.push(brace);
        let end: usize = find_from(directive, '}', brace + 1);
        if end < count {
            cuts.push(brace + 1);
            cuts.push(end);
            if count - end > 1 && directive[end + 1] == ']' {
                behind = end + 2;
            }
        }
    } else if close < count {
        cuts.push(start);
        cuts.push(close);
        behind = close + 1;
    }
    assert(as_positions(cuts@) =~= as_positions(before) + span_cuts(directive@, start as int));
    if behind < count && directive[behind] == '=' {
        Some(behind)
    } else {
        None
    }
}

/// Positions as they are counted in specifications.
spec fn as_positions(positions: Seq<usize>) -> Seq<int> {
    positions.map_values(|position: usize| position as int)
}

/// Where a directive is cut, and where the `=` in front of its level is if it has a span.
fn cuts_of(directive: &Vec<char>) -> (cuts: (Vec<usize>, Option<usize>))
    ensures
        as_positions(cuts.0@) == directive_cuts(directive@),
        match cuts.1 {
            Some(mark) => {
                &&& span_start(directive@) is Some
                &&& level_mark(directive@, span_start(directive@)->0) == Some(mark as int)
                &&& mark < directive@.len()
            },
            None => span_start(directive@) is Some ==> level_mark(
                directive@,
                span_start(directive@)->0,
            ) is None,
        },
{
    let count: usize = directive.len();
    let start: usize = indentation_of(directive);
    let bracket: usize = find_from(directive, '[', start);
    let equals: usize = find_from(directive, '=', start);
    let mut cuts: Vec<usize> = Vec::new();
    if bracket < equals {
        if bracket != start {
            cuts.push(bracket);
        }
        assert(as_positions(cuts@) =~= target_cuts(directive@));
        let mark = cuts_of_span(directive, bracket + 1, &mut cuts);
        let ghost span = cuts@;
        if let Some(mark) = mark {
            cuts.push(mark + 1);
            assert(as_positions(cuts@) =~= as_positions(span).push(mark as int + 1));
        }
        assert(as_positions(cuts@) =~= directive_cuts(directive@));
        (cuts, mark)
    } else {
        if start < equals && equals < count {
            cuts.push(equals);
            cuts.push(equals + 1);
        }
        assert(as_positions(cuts@) =~= directive_cuts(directive@));
        (cuts, None)
    }
}

/// More characters take more bytes.
proof fn lemma_byte_count_grows(text: Text, first: int, second: int)
    requires
        0 <= first <= second <= text.len(),
    ensures
        byte_count(text.take(first)) <= byte_count(text.take(second)),
    decreases second - first,
{
    if first < second {
        lemma_byte_count_grows(text, first, second - 1);
        lemma_next_byte_count(text, second - 1);
    }
}

fn bytes_in_front(text: &Vec<char>, at: usize) -> (bytes: u128)
    requires
        at <= text@.len(),
    ensures
        bytes == byte_count(text@.take(at as int)),
{
    let mut bytes: u128 = 0;
    for count in 0..at
        invariant
            at <= text@.len(),
            bytes == byte_count(text@.take(count as int)),
    {
        proof {
            lemma_next_byte_count(text@, count as int);
            lemma_byte_count_bound(text@.take(count as int));
        }
        bytes = bytes + width_in_utf8(text[count]);
    }
    bytes
}

fn all_between_characters(directive: &Vec<char>, cuts: &Vec<usize>) -> (holds: bool)
    requires
        as_positions(cuts@) == directive_cuts(directive@),
    ensures
        holds == cut_between_characters(directive@),
{
    let indented: usize = indentation_of(directive);
    let removed: u128 = bytes_in_front(directive, indented);
    proof {
        lemma_cuts_in_range(directive@);
    }
    for i in 0..cuts.len()
        invariant
            as_positions(cuts@) == directive_cuts(directive@),
            indented == indentation(directive@),
            removed == byte_count(directive@.take(indented as int)),
            forall|j: int|
                0 <= j < directive_cuts(directive@).len() ==> indentation(directive@)
                    <= #[trigger] directive_cuts(directive@)[j] <= directive@.len(),
            forall|j: int|
                0 <= j < i ==> between_characters(
                    directive@,
                    unindented_position(directive@, #[trigger] directive_cuts(directive@)[j]),
                ),
    {
        let ghost cut = directive_cuts(directive@)[i as int];
        assert(as_positions(cuts@)[i as int] == cuts@[i as int]);
        proof {
            lemma_byte_count_grows(directive@, indented as int, cut);
        }
        let position: u128 = bytes_in_front(directive, cuts[i]) - removed;
        if !falls_between_characters(directive, position) {
            assert(!between_characters(directive@, unindented_position(directive@, cut)));
            return false;
        }
    }
    assert(as_positions(cuts@).len() == cuts@.len());
    true
}

fn is_refused(text: &str) -> (holds: bool)
    requires
        !text@.contains(','),
    ensures
        holds == refused(text@),
{
    let chars = characters(text);
    let (cuts, _) = cuts_of(&chars);
    all_between_characters(&chars, &cuts) && read_directive(text).is_err()
}

fn is_readable_directive(directive: &str) -> (holds: bool)
    requires
        !directive@.contains(','),
    ensures
        holds == readable_directive(directive@),
{
    let chars = characters(directive);
    let (cuts, mark) = cuts_of(&chars);
    if all_between_characters(&chars, &cuts) {
        return true;
    }
    let count: usize = directive.unicode_len();
    let start: usize = indentation_of(&chars);
    if start < count && chars[start] != '[' {
        let first = directive.substring_char(0, start + 1);
        assert(first@ =~= directive@.take(start + 1));
        if is_refused(first) {
            return true;
        }
    }
    match mark {
        Some(mark) => {
            let front = directive.substring_char(0, mark);
            assert(front@ =~= directive@.take(mark as int));
            is_refused(front)
        },
        None => false,
    }
}

/// Whether a filter can be read from a text.
pub fn is_readable(directives: &str) -> (holds: bool)
    ensures
        holds == readable(directives@),
{
    let mut left = directives;
    loop
        invariant
            readable(directives@) == readable(left@),
        decreases left@.len(),
    {
        proof {
            lemma_first_position(left@, ',');
        }
        match split_once(left, ',') {
            None => {
                return is_readable_directive(left);
            },
            Some((first, rest)) => {
                if !is_readable_directive(first) {
                    return false;
                }
                left = rest;
            },
        }
    }
}

/// The text of a plain directive is one directive, without indentation.
pub proof fn lemma_plain_directive(directive: (Option<Text>, Text))
    requires
        plain_directive(directive),
    ensures
        !directive_text(directive).contains(','),
        cut_between_characters(directive_text(directive)),
{
    reveal_strlit("off");
    reveal_strlit("error");
    reveal_strlit("warn");
    reveal_strlit("info");
    reveal_strlit("debug");
    reveal_strlit("trace");
    reveal_strlit("=");
    let text = directive_text(directive);
    let level = directive.1;
    assert(level.len() > 0 && forall|i: int|
        0 <= i < level.len() ==> 'a' <= #[trigger] level[i] <= 'z');
    if let Some(target) = directive.0 {
        assert(text[0] == target[0]);
        assert forall|i: int| 0 <= i < text.len() implies text[i] != ',' by {
            if i < target.len() {
                assert(text[i] == target[i]);
            } else if i > target.len() {
                assert(text[i] == level[i - target.len() - 1]);
            }
        }
    } else {
        assert(text[0] == level[0]);
    }
    assert(indentation(text) == 0);
    lemma_usual_cuts(text);
}

/// A directive without indentation, or without characters outside of ASCII, or that is a target
/// or a level alone, is readable.
pub proof fn law_usual_directives_are_readable(directive: Text)
    requires
        indentation(directive) == 0 || (forall|i: int|
            0 <= i < directive.len() ==> #[trigger] directive[i] <= '\u{7f}') || (
        !directive.contains('=') && !directive.contains('[')),
    ensures
        readable_directive(directive),
{
    lemma_usual_cuts(directive);
}

/// Usual directives are cut between characters only.
proof fn lemma_usual_cuts(directive: Text)
    requires
        indentation(directive) == 0 || (forall|i: int|
            0 <= i < directive.len() ==> #[trigger] directive[i] <= '\u{7f}') || (
        !directive.contains('=') && !directive.contains('[')),
    ensures
        cut_between_characters(directive),
{
    let indented = indentation(directive);
    let cuts = directive_cuts(directive);
    lemma_cuts_in_range(directive);
    lemma_indentation(directive);
    lemma_position_from(directive, '[', indented);
    lemma_position_from(directive, '=', indented);
    assert forall|i: int| 0 <= i < cuts.len() implies between_characters(
        directive,
        unindented_position(directive, #[trigger] cuts[i]),
    ) by {
        let cut = cuts[i];
        if indented == 0 {
            assert(byte_count(directive.take(0)) == 0);
            assert(byte_count(directive.take(cut)) == unindented_position(directive, cut));
        } else {
            lemma_ascii_byte_count(directive, cut);
            lemma_ascii_byte_count(directive, indented);
            lemma_ascii_byte_count(directive, cut - indented);
        }
    }
}

/// In ASCII every character is one byte.
proof fn lemma_ascii_byte_count(text: Text, count: int)
    requires
        0 <= count <= text.len(),
        forall|i: int| 0 <= i < text.len() ==> #[trigger] text[i] <= '\u{7f}',
    ensures
        byte_count(text.take(count)) == count,
    decreases count,
{
    if count > 0 {
        lemma_ascii_byte_count(text, count - 1);
        lemma_next_byte_count(text, count - 1);
    }
}

/// A text is readable exactly if each of the directives is that stand between its commas.
pub proof fn law_directives_are_read_one_by_one(directive: Text, rest: Text)
    requires
        !directive.contains(','),
    ensures
        readable(directive) <==> readable_directive(directive),
        readable(directive + seq![','] + rest) <==> readable_directive(directive) && readable(rest),
{
    let text = directive + seq![','] + rest;
    let at = directive.len() as int;
    lemma_first_position(directive, ',');
    assert(text[at] == ',');
    assert forall|i: int| 0 <= i < at implies text[i] != ',' by {
        assert(text[i] == directive[i]);
    }
    lemma_first_position_unique(text, ',', at);
    assert(text.take(at) =~= directive);
    assert(text.skip(at + 1) =~= rest);
}

/// The bytes of two texts in a row.
proof fn lemma_byte_count_of_both(first: Text, second: Text)
    ensures
        byte_count(first + second) == byte_count(first) + byte_count(second),
    decreases second.len(),
{
    if second.len() == 0 {
        assert(first + second =~= first);
    } else {
        assert((first + second).drop_last() =~= first + second.drop_last());
        lemma_byte_count_of_both(first, second.drop_last());
    }
}

/// The bytes of a text are counted as they are encoded.
pub proof fn law_bytes_are_encoded(text: Text)
    ensures
        byte_count(text) == encode_utf8(text).len(),
    decreases text.len(),
{
    if text.len() > 0 {
        let rest = text.drop_first();
        let first = seq![text[0]];
        law_bytes_are_encoded(rest);
        assert(first + rest =~= text);
        lemma_byte_count_of_both(first, rest);
        lemma_byte_count_of_one(text[0]);
        lemma_encoded_width(text[0]);
    }
}

/// A position falls between characters exactly if the text can be parted there: so many bytes
/// encode its beginning.
pub proof fn law_between_characters(text: Text, position: int)
    ensures
        between_characters(text, position) <==> exists|front: Text, back: Text|
            text == #[trigger] (front + back) && encode_utf8(front).len() == position,
{
    if between_characters(text, position) {
        let count = choose|count: int|
            0 <= count <= text.len() && byte_count(#[trigger] text.take(count)) == position;
        law_bytes_are_encoded(text.take(count));
        assert(text =~= text.take(count) + text.skip(count));
    }
    if exists|front: Text, back: Text|
        text == #[trigger] (front + back) && encode_utf8(front).len() == position {
        let (front, back) = choose|front: Text, back: Text|
            text == #[trigger] (front + back) && encode_utf8(front).len() == position;
        law_bytes_are_encoded(front);
        assert(text.take(front.len() as int) =~= front);
    }
}

/// White space is what Unicode calls so.
pub proof fn law_white_space(c: char)
    ensures
        white_space(c) <==> {
            let code = c as u32;
            ||| 0x9 <= code <= 0xd
            ||| code == 0x20 || code == 0x85 || code == 0xa0 || code == 0x1680
            ||| 0x2000 <= code <= 0x200a
            ||| code == 0x2028 || code == 0x2029 || code == 0x202f || code == 0x205f || code
                == 0x3000
        },
{
}

/// The indentation of a directive is all of the white space that it begins with.
pub proof fn law_indentation(blank: Text, rest: Text)
    requires
        forall|i: int| 0 <= i < blank.len() ==> white_space(#[trigger] blank[i]),
        rest.len() > 0 ==> !white_space(rest[0]),
    ensures
        indentation(blank + rest) == blank.len(),
{
    let directive = blank + rest;
    let indented = indentation(directive);
    lemma_indentation(directive);
    if indented < blank.len() {
        assert(directive[indented] == blank[indented]);
    } else if indented > blank.len() {
        assert(directive[blank.len() as int] == rest[0]);
    }
}

/// Where a part of a directive begins, counted from the end of the indentation.
proof fn lemma_part_position(blank: Text, part: Text, rest: Text)
    requires
        indentation(blank + part + rest) == blank.len(),
    ensures
        unindented_position(blank + part + rest, (blank.len() + part.len()) as int) == byte_count(
            part,
        ),
{
    let directive = blank + part + rest;
    assert(directive.take((blank.len() + part.len()) as int) =~= blank + part);
    assert(directive.take(blank.len() as int) =~= blank);
    lemma_byte_count_of_both(blank, part);
}

/// The first position of a character that stands at `at` and not between there and `start`.
proof fn lemma_found(text: Text, wanted: char, start: int, at: int)
    requires
        0 <= start <= at <= text.len(),
        at < text.len() ==> text[at] == wanted,
        forall|i: int| start <= i < at ==> #[trigger] text[i] != wanted,
    ensures
        position_from(text, wanted, start) == at,
{
    let rest = text.skip(start);
    assert forall|i: int| 0 <= i < at - start implies rest[i] != wanted by {
        assert(rest[i] == text[start + i]);
    }
    lemma_first_position_unique(rest, wanted, at - start);
}

/// A directive with a target and a level is cut in front of the `=` and behind it, by as many bytes
/// as the target has. It is readable exactly if both cuts fall between characters of the directive
/// as it is written, with its indentation, or if its first character begins no directive.
#[verifier::rlimit(40)]
pub proof fn law_target_and_level(blank: Text, target: Text, level: Text)
    requires
        forall|i: int| 0 <= i < blank.len() ==> white_space(#[trigger] blank[i]),
        target.len() > 0,
        !white_space(target[0]),
        !target.contains('='),
        !target.contains('['),
    ensures
        ({
            let directive = blank + target + seq!['='] + level;
            let size = encode_utf8(target).len() as int;
            let safe = between_characters(directive, size) && between_characters(
                directive,
                size + 1,
            );
            &&& cut_between_characters(directive) <==> safe
            &&& readable_directive(directive) <==> safe || read_parts(
                blank + seq![target[0]],
            ) is None
        }),
{
    let directive = blank + target + seq!['='] + level;
    let start = blank.len() as int;
    let equals = start + target.len();
    let behind = seq!['='] + level;
    assert(directive =~= blank + (target + behind));
    law_indentation(blank, target + behind);
    assert(directive[equals] == '=');
    assert forall|i: int| start <= i < equals implies #[trigger] directive[i] != '=' && directive[i]
        != '[' by {
        assert(directive[i] == target[i - start]);
        assert(target.contains(target[i - start]));
    }
    lemma_found(directive, '=', start, equals);
    lemma_position_from(directive, '[', start);
    let bracket = position_from(directive, '[', start);
    assert(bracket >= equals);
    assert(bracket != equals);
    let cuts = directive_cuts(directive);
    assert(cuts =~= seq![equals, equals + 1]);
    assert(directive =~= blank + target + behind);
    lemma_part_position(blank, target, behind);
    let marked = target + seq!['='];
    assert(directive =~= blank + marked + level);
    lemma_part_position(blank, marked, level);
    lemma_byte_count_of_both(target, seq!['=']);
    lemma_byte_count_of_one('=');
    law_bytes_are_encoded(target);
    assert(cuts[0] == equals && cuts[1] == equals + 1);
    let first = blank + seq![target[0]];
    assert(directive.take(start + 1) =~= first);
    law_indentation(blank, seq![target[0]]);
    assert(first[start] == target[0]);
    assert(target.contains(target[0]));
    lemma_found(first, '=', start, first.len() as int);
    lemma_found(first, '[', start, first.len() as int);
    assert(directive_cuts(first) =~= Seq::<int>::empty());
    assert(directive[start] == target[0]);
    assert(span_start(directive) is None);
}

/// The text of a directive with a span, from its parts.
pub open spec fn span_directive(
    blank: Text,
    target: Text,
    span: Text,
    level: Option<Text>,
) -> Text {
    let named = blank + target + seq!['['] + span + seq![']'];
    match level {
        Some(level) => named + seq!['='] + level,
        None => named,
    }
}

/// Where a directive with a span is cut.
#[verifier::rlimit(40)]
proof fn lemma_span_directive_cuts(blank: Text, target: Text, span: Text, level: Option<Text>)
    requires
        forall|i: int| 0 <= i < blank.len() ==> white_space(#[trigger] blank[i]),
        target.len() > 0 ==> !white_space(target[0]),
        !target.contains('='),
        !target.contains('['),
        !span.contains(']'),
        !span.contains('{'),
    ensures
        ({
            let directive = span_directive(blank, target, span, level);
            let bracket = (blank.len() + target.len()) as int;
            let close = bracket + 1 + span.len();
            let front: Seq<int> = if target.len() > 0 {
                seq![bracket]
            } else {
                seq![]
            };
            let end: Seq<int> = if level is Some {
                seq![close + 2]
            } else {
                seq![]
            };
            &&& indentation(directive) == blank.len()
            &&& directive_cuts(directive) == front + (seq![bracket + 1, close] + end)
        }),
{
    let directive = span_directive(blank, target, span, level);
    let start = blank.len() as int;
    let bracket = start + target.len();
    let close = bracket + 1 + span.len();
    let behind = directive.skip(start);
    assert(directive =~= blank + behind);
    assert(directive[bracket] == '[');
    assert(directive[close] == ']');
    assert(behind[0] == directive[start]);
    if target.len() > 0 {
        assert(directive[start] == target[0]);
    }
    law_indentation(blank, behind);
    assert forall|i: int| start <= i < bracket implies #[trigger] directive[i] != '='
        && directive[i] != '[' by {
        assert(directive[i] == target[i - start]);
        assert(target.contains(target[i - start]));
    }
    assert forall|i: int| bracket < i < close implies #[trigger] directive[i] != ']'
        && directive[i] != '{' by {
        assert(directive[i] == span[i - bracket - 1]);
        assert(span.contains(span[i - bracket - 1]));
    }
    lemma_found(directive, '[', start, bracket);
    lemma_position_from(directive, '=', start);
    lemma_found(directive, ']', bracket + 1, close);
    lemma_position_from(directive, '{', bracket + 1);
    assert(position_from(directive, '=', start) > bracket);
    assert(position_from(directive, '{', bracket + 1) > close);
    if level is Some {
        assert(directive[close + 1] == '=');
    } else {
        assert(directive.len() == close + 1);
    }
}

/// Where the parts of a directive with a span begin, counted in bytes from the end of the
/// indentation.
#[verifier::rlimit(40)]
proof fn lemma_span_directive_positions(blank: Text, target: Text, span: Text, level: Option<Text>)
    requires
        indentation(span_directive(blank, target, span, level)) == blank.len(),
    ensures
        ({
            let directive = span_directive(blank, target, span, level);
            let bracket = (blank.len() + target.len()) as int;
            let close = bracket + 1 + span.len();
            let front = encode_utf8(target).len() as int;
            let end = front + 1 + encode_utf8(span).len();
            &&& unindented_position(directive, bracket) == front
            &&& unindented_position(directive, bracket + 1) == front + 1
            &&& unindented_position(directive, close) == end
            &&& level is Some ==> unindented_position(directive, close + 2) == end + 2
        }),
{
    let directive = span_directive(blank, target, span, level);
    let bracket = (blank.len() + target.len()) as int;
    let close = bracket + 1 + span.len();
    assert(directive.take(blank.len() as int) =~= blank);
    assert(directive.take(bracket) =~= blank + target);
    lemma_byte_count_of_both(blank, target);
    law_bytes_are_encoded(target);
    assert(directive[bracket] == '[');
    lemma_next_byte_count(directive, bracket);
    assert(directive.take(close) =~= directive.take(bracket + 1) + span);
    lemma_byte_count_of_both(directive.take(bracket + 1), span);
    law_bytes_are_encoded(span);
    assert(directive[close] == ']');
    lemma_next_byte_count(directive, close);
    if level is Some {
        assert(directive[close + 1] == '=');
        lemma_next_byte_count(directive, close + 1);
    }
}

/// A directive with a span is cut at the end of its target if it has one, behind the `[`, and in
/// front of the `]`, and behind the `=` if a level follows. It is cut between characters only
/// exactly if all of these fall between characters of the directive as it is written.
pub proof fn law_span(blank: Text, target: Text, span: Text, level: Option<Text>)
    requires
        forall|i: int| 0 <= i < blank.len() ==> white_space(#[trigger] blank[i]),
        target.len() > 0 ==> !white_space(target[0]),
        !target.contains('='),
        !target.contains('['),
        !span.contains(']'),
        !span.contains('{'),
    ensures
        ({
            let directive = span_directive(blank, target, span, level);
            let front = encode_utf8(target).len() as int;
            let end = front + 1 + encode_utf8(span).len();
            cut_between_characters(directive) <==> {
                &&& target.len() > 0 ==> between_characters(directive, front)
                &&& between_characters(directive, front + 1)
                &&& between_characters(directive, end)
                &&& level is Some ==> between_characters(directive, end + 2)
            }
        }),
{
    lemma_span_directive_cuts(blank, target, span, level);
    lemma_span_directive_positions(blank, target, span, level);
    let directive = span_directive(blank, target, span, level);
    let bracket = (blank.len() + target.len()) as int;
    let close = bracket + 1 + span.len();
    let cuts = directive_cuts(directive);
    let offset: int = if target.len() > 0 {
        1
    } else {
        0
    };
    assert(target.len() > 0 ==> cuts[0] == bracket);
    assert(cuts[offset] == bracket + 1);
    assert(cuts[offset + 1] == close);
    assert(level is Some ==> cuts[offset + 2] == close + 2);
}

/// The text of a directive with a span that has a field, from its parts.
pub open spec fn field_directive(
    blank: Text,
    target: Text,
    span: Text,
    field: Text,
    level: Option<Text>,
) -> Text {
    let named = blank + target + seq!['['] + span + seq!['{'] + field + seq!['}', ']'];
    match level {
        Some(level) => named + seq!['='] + level,
        None => named,
    }
}

/// Where a directive with a field is cut.
#[verifier::rlimit(40)]
proof fn lemma_field_directive_cuts(
    blank: Text,
    target: Text,
    span: Text,
    field: Text,
    level: Option<Text>,
)
    requires
        forall|i: int| 0 <= i < blank.len() ==> white_space(#[trigger] blank[i]),
        target.len() > 0 ==> !white_space(target[0]),
        !target.contains('='),
        !target.contains('['),
        !span.contains(']'),
        !span.contains('{'),
        !field.contains('}'),
    ensures
        ({
            let directive = field_directive(blank, target, span, field, level);
            let bracket = (blank.len() + target.len()) as int;
            let brace = bracket + 1 + span.len();
            let end = brace + 1 + field.len();
            let front: Seq<int> = if target.len() > 0 {
                seq![bracket]
            } else {
                seq![]
            };
            let last: Seq<int> = if level is Some {
                seq![end + 3]
            } else {
                seq![]
            };
            &&& indentation(directive) == blank.len()
            &&& directive_cuts(directive) == front + (seq![bracket + 1, brace, brace + 1, end]
                + last)
            &&& span_start(directive) == Some(bracket + 1)
            &&& level_mark(directive, bracket + 1) == if level is Some {
                Some(end + 2)
            } else {
                None
            }
        }),
{
    let directive = field_directive(blank, target, span, field, level);
    let start = blank.len() as int;
    let bracket = start + target.len();
    let brace = bracket + 1 + span.len();
    let end = brace + 1 + field.len();
    let behind = directive.skip(start);
    assert(directive =~= blank + behind);
    assert(directive[bracket] == '[');
    assert(directive[brace] == '{');
    assert(directive[end] == '}');
    assert(directive[end + 1] == ']');
    assert(behind[0] == directive[start]);
    if target.len() > 0 {
        assert(directive[start] == target[0]);
    }
    law_indentation(blank, behind);
    assert forall|i: int| start <= i < bracket implies #[trigger] directive[i] != '='
        && directive[i] != '[' by {
        assert(directive[i] == target[i - start]);
        assert(target.contains(target[i - start]));
    }
    assert forall|i: int| bracket < i < brace implies #[trigger] directive[i] != ']'
        && directive[i] != '{' by {
        assert(directive[i] == span[i - bracket - 1]);
        assert(span.contains(span[i - bracket - 1]));
    }
    assert forall|i: int| brace < i < end implies #[trigger] directive[i] != '}' by {
        assert(directive[i] == field[i - brace - 1]);
        assert(field.contains(field[i - brace - 1]));
    }
    lemma_found(directive, '[', start, bracket);
    lemma_position_from(directive, '=', start);
    lemma_found(directive, '{', bracket + 1, brace);
    lemma_position_from(directive, ']', bracket + 1);
    lemma_found(directive, '}', brace + 1, end);
    assert(position_from(directive, '=', start) > bracket);
    assert(position_from(directive, ']', bracket + 1) > brace);
    if level is Some {
        assert(directive[end + 2] == '=');
    } else {
        assert(directive.len() == end + 2);
    }
}

/// Where the parts of a directive with a field begin, counted in bytes from the end of the
/// indentation.
#[verifier::rlimit(40)]
proof fn lemma_field_directive_positions(
    blank: Text,
    target: Text,
    span: Text,
    field: Text,
    level: Option<Text>,
)
    requires
        indentation(field_directive(blank, target, span, field, level)) == blank.len(),
    ensures
        ({
            let directive = field_directive(blank, target, span, field, level);
            let bracket = (blank.len() + target.len()) as int;
            let brace = bracket + 1 + span.len();
            let end = brace + 1 + field.len();
            let front = encode_utf8(target).len() as int;
            let name = front + 1 + encode_utf8(span).len();
            let last = name + 1 + encode_utf8(field).len();
            &&& unindented_position(directive, bracket) == front
            &&& unindented_position(directive, bracket + 1) == front + 1
            &&& unindented_position(directive, brace) == name
            &&& unindented_position(directive, brace + 1) == name + 1
            &&& unindented_position(directive, end) == last
            &&& level is Some ==> unindented_position(directive, end + 3) == last + 3
        }),
{
    let directive = field_directive(blank, target, span, field, level);
    let bracket = (blank.len() + target.len()) as int;
    let brace = bracket + 1 + span.len();
    let end = brace + 1 + field.len();
    assert(directive.take(blank.len() as int) =~= blank);
    assert(directive.take(bracket) =~= blank + target);
    lemma_byte_count_of_both(blank, target);
    law_bytes_are_encoded(target);
    assert(directive[bracket] == '[');
    lemma_next_byte_count(directive, bracket);
    assert(directive.take(brace) =~= directive.take(bracket + 1) + span);
    lemma_byte_count_of_both(directive.take(bracket + 1), span);
    law_bytes_are_encoded(span);
    assert(directive[brace] == '{');
    lemma_next_byte_count(directive, brace);
    assert(directive.take(end) =~= directive.take(brace + 1) + field);
    lemma_byte_count_of_both(directive.take(brace + 1), field);
    law_bytes_are_encoded(field);
    assert(directive[end] == '}');
    lemma_next_byte_count(directive, end);
    assert(directive[end + 1] == ']');
    lemma_next_byte_count(directive, end + 1);
    if level is Some {
        assert(directive[end + 2] == '=');
        lemma_next_byte_count(directive, end + 2);
    }
}

/// A directive with a field is cut at the end of its target if it has one, around the name of its
/// span, around the field, and behind the `=` if a level follows. It is cut between characters only
/// exactly if all of these fall between characters of the directive as it is written.
pub proof fn law_field(blank: Text, target: Text, span: Text, field: Text, level: Option<Text>)
    requires
        forall|i: int| 0 <= i < blank.len() ==> white_space(#[trigger] blank[i]),
        target.len() > 0 ==> !white_space(target[0]),
        !target.contains('='),
        !target.contains('['),
        !span.contains(']'),
        !span.contains('{'),
        !field.contains('}'),
    ensures
        ({
            let directive = field_directive(blank, target, span, field, level);
            let front = encode_utf8(target).len() as int;
            let name = front + 1 + encode_utf8(span).len();
            let last = name + 1 + encode_utf8(field).len();
            cut_between_characters(directive) <==> {
                &&& target.len() > 0 ==> between_characters(directive, front)
                &&& between_characters(directive, front + 1)
                &&& between_characters(directive, name)
                &&& between_characters(directive, name + 1)
                &&& between_characters(directive, last)
                &&& level is Some ==> between_characters(directive, last + 3)
            }
        }),
{
    lemma_field_directive_cuts(blank, target, span, field, level);
    lemma_field_directive_positions(blank, target, span, field, level);
    let directive = field_directive(blank, target, span, field, level);
    let bracket = (blank.len() + target.len()) as int;
    let brace = bracket + 1 + span.len();
    let end = brace + 1 + field.len();
    let cuts = directive_cuts(directive);
    let offset: int = if target.len() > 0 {
        1
    } else {
        0
    };
    assert(target.len() > 0 ==> cuts[0] == bracket);
    assert(cuts[offset] == bracket + 1);
    assert(cuts[offset + 1] == brace);
    assert(cuts[offset + 2] == brace + 1);
    assert(cuts[offset + 3] == end);
    assert(level is Some ==> cuts[offset + 4] == end + 3);
}

/// A directive with a field whose target begins like one, or that has none, is readable exactly if
/// it is cut between characters only, or if what stands in front of its level is, and is no
/// directive.
pub proof fn law_field_may_be_refused(
    blank: Text,
    target: Text,
    span: Text,
    field: Text,
    level: Text,
)
    requires
        forall|i: int| 0 <= i < blank.len() ==> white_space(#[trigger] blank[i]),
        target.len() > 0 ==> !white_space(target[0]) && read_parts(
            blank + seq![target[0]],
        ) is Some,
        !target.contains('='),
        !target.contains('['),
        !span.contains(']'),
        !span.contains('{'),
        !field.contains('}'),
    ensures
        ({
            let directive = field_directive(blank, target, span, field, Some(level));
            let front = field_directive(blank, target, span, field, None);
            readable_directive(directive) <==> cut_between_characters(directive) || (
            cut_between_characters(front) && read_parts(front) is None)
        }),
{
    lemma_field_directive_cuts(blank, target, span, field, Some(level));
    let directive = field_directive(blank, target, span, field, Some(level));
    let front = field_directive(blank, target, span, field, None);
    let start = blank.len() as int;
    assert(directive.take(front.len() as int) =~= front);
    if target.len() > 0 {
        assert(directive[start] == target[0]);
        assert(directive.take(start + 1) =~= blank + seq![target[0]]);
    } else {
        assert(directive[start] == '[');
    }
}

/// The bytes of one character as they are encoded.
proof fn lemma_encoded_width(c: char)
    ensures
        encode_scalar(c as u32).len() == utf8_width(c),
{
}

/// The bytes of one character.
proof fn lemma_byte_count_of_one(c: char)
    ensures
        byte_count(seq![c]) == utf8_width(c),
{
    reveal_with_fuel(byte_count, 2);
    assert(seq![c].drop_last() =~= Seq::<char>::empty());
}

} // verus!
