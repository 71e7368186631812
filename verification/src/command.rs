//! Commands that a comment may hold, and the parser that finds the first of
//! them in free text.

use crate::scan;
use crate::text;
use crate::scan::option_view;
use vstd::prelude::*;
use vstd::slice::slice_subrange;

verus! {

/// A request that the bot understands.
#[derive(Debug, Clone, PartialEq, Eq)]
pub enum Command {
    /// Bisect between `start`, if given, and `end`, on the program `code`.
    Bisect { start: Option<String>, end: String, code: String },
}

/// The mathematical value of a `Command`.
pub enum Directive {
    Bisect { start: Option<Seq<char>>, end: Seq<char>, code: Seq<char> },
}

/// Why a comment that invokes the bot holds no command.
#[derive(Debug, Clone, PartialEq, Eq)]
pub enum ParseError {
    /// The word after the invocation prefix names no command; it is given.
    UnknownCommand(String),
    /// An argument is neither `start=` nor `end=` with a value; it is given.
    UnknownArgument(String),
    /// The key given, `start` or `end`, occurs twice.
    DuplicateKey(String),
    /// No argument gives the end of the range.
    MissingEnd,
    /// No line after the directive opens a code block.
    MissingCodeFence,
}

/// The mathematical value of a `ParseError`.
pub enum Rejection {
    UnknownCommand(Seq<char>),
    UnknownArgument(Seq<char>),
    DuplicateKey(Seq<char>),
    MissingEnd,
    MissingCodeFence,
}

impl View for Command {
    type V = Directive;

    open spec fn view(&self) -> Directive {
        match self {
            Command::Bisect { start, end, code } => Directive::Bisect {
                start: option_view(*start),
                end: end@,
                code: code@,
            },
        }
    }
}

impl View for ParseError {
    type V = Rejection;

    open spec fn view(&self) -> Rejection {
        match self {
            ParseError::UnknownCommand(name) => Rejection::UnknownCommand(name@),
            ParseError::UnknownArgument(token) => Rejection::UnknownArgument(token@),
            ParseError::DuplicateKey(key) => Rejection::DuplicateKey(key@),
            ParseError::MissingEnd => Rejection::MissingEnd,
            ParseError::MissingCodeFence => Rejection::MissingCodeFence,
        }
    }
}

/// The view of what the parser returns.
pub open spec fn parse_view(r: Result<Option<Command>, ParseError>) -> Result<
    Option<Directive>,
    Rejection,
> {
    match r {
        Ok(Some(command)) => Ok(Some(command@)),
        Ok(None) => Ok(None),
        Err(e) => Err(e@),
    }
}

/// What a line that addresses the bot begins with, once trimmed.
pub const BOT_NAME: &'static str = "bisect-bot ";

/// The characters of the invocation prefix.
pub open spec fn invocation_prefix() -> Seq<char> {
    BOT_NAME@
}

/// The name of the one command.
pub open spec fn command_name() -> Seq<char> {
    "bisect"@
}

/// What the argument that starts the range begins with.
pub open spec fn start_key() -> Seq<char> {
    "start="@
}

/// What the argument that ends the range begins with.
pub open spec fn end_key() -> Seq<char> {
    "end="@
}

/// The line that opens a code block, once trimmed.
pub open spec fn opening_fence() -> Seq<char> {
    "```rust"@
}

/// The line that closes a code block, once trimmed.
pub open spec fn closing_fence() -> Seq<char> {
    "```"@
}

/// Whether `line`, once trimmed, begins with the invocation prefix.
pub open spec fn is_invocation(line: Seq<char>) -> bool {
    invocation_prefix().is_prefix_of(text::trim(line))
}

/// The predicate `is_invocation`.
pub open spec fn invocations() -> spec_fn(Seq<char>) -> bool {
    |line: Seq<char>| is_invocation(line)
}

/// The lines that, once trimmed, are exactly `fence`.
pub open spec fn fences(fence: Seq<char>) -> spec_fn(Seq<char>) -> bool {
    |line: Seq<char>| text::trim(line) == fence
}

/// The ends of a range, as far as the arguments read so far gave them.
pub struct Range {
    pub start: Option<Seq<char>>,
    pub end: Option<Seq<char>>,
}

/// The range that the arguments `tokens` give, read in order on top of
/// `seen`. The first argument that is out of place decides the error.
pub open spec fn parse_arguments(tokens: Seq<Seq<char>>, seen: Range) -> Result<Range, Rejection>
    decreases tokens.len(),
{
    if tokens.len() == 0 {
        Ok(seen)
    } else {
        let token = text::trim(tokens[0]);
        if start_key().is_prefix_of(token) {
            if seen.start is Some {
                Err(Rejection::DuplicateKey("start"@))
            } else {
                parse_arguments(
                    tokens.drop_first(),
                    Range { start: Some(token.skip(start_key().len() as int)), end: seen.end },
                )
            }
        } else if end_key().is_prefix_of(token) {
            if seen.end is Some {
                Err(Rejection::DuplicateKey("end"@))
            } else {
                parse_arguments(
                    tokens.drop_first(),
                    Range { start: seen.start, end: Some(token.skip(end_key().len() as int)) },
                )
            }
        } else {
            Err(Rejection::UnknownArgument(token))
        }
    }
}

/// The start and end that the directive `rest` gives: what follows the
/// invocation prefix on its line. Its tokens are its pieces between single
/// spaces, each trimmed; the first names the command, the others are its
/// arguments.
pub open spec fn parse_directive(rest: Seq<char>) -> Result<
    (Option<Seq<char>>, Seq<char>),
    Rejection,
> {
    let tokens = text::split(rest, ' ');
    let name = text::trim(tokens[0]);
    if name != command_name() {
        Err(Rejection::UnknownCommand(name))
    } else {
        match parse_arguments(tokens.drop_first(), Range { start: None, end: None }) {
            Err(e) => Err(e),
            Ok(range) => match range.end {
                None => Err(Rejection::MissingEnd),
                Some(end) => Ok((range.start, end)),
            },
        }
    }
}

/// The code of the first code block in `lines`: the lines after the first
/// opening fence and before the next closing fence, or to the end where
/// none follows, joined by line feeds. There is none without an opening
/// fence.
pub open spec fn code_block(lines: Seq<Seq<char>>) -> Option<Seq<char>> {
    let open = text::first_index(lines, fences(opening_fence()));
    if 0 <= open < lines.len() {
        let body = lines.skip(open + 1);
        let close = text::first_index(body, fences(closing_fence()));
        Some(text::join(body.take(close), '\n'))
    } else {
        None
    }
}

/// The command that `comment` holds. Its first invocation line decides;
/// without one the comment is no command at all.
pub open spec fn parse(comment: Seq<char>) -> Result<Option<Directive>, Rejection> {
    let lines = text::lines(comment);
    let i = text::first_index(lines, invocations());
    if 0 <= i < lines.len() {
        let line = text::trim(lines[i]);
        match parse_directive(text::trim(line.skip(invocation_prefix().len() as int))) {
            Err(e) => Err(e),
            Ok((start, end)) => match code_block(lines.skip(i + 1)) {
                None => Err(Rejection::MissingCodeFence),
                Some(code) => Ok(Some(Directive::Bisect { start, end, code })),
            },
        }
    } else {
        Ok(None)
    }
}

/// A comment in which the invocation prefix does not occur is no command
/// and no error.
pub proof fn lemma_no_invocation(comment: Seq<char>)
    requires
        !text::contains(comment, invocation_prefix()),
    ensures
        parse(comment) == Ok::<Option<Directive>, Rejection>(None),
{
    let lines = text::lines(comment);
    let i = text::first_index(lines, invocations());
    text::lemma_first_index(lines, invocations());
    if i < lines.len() {
        let line = lines[i];
        assert(is_invocation(line));
        let prefix = invocation_prefix();
        assert(text::occurs_at(text::trim(line), prefix, 0));
        text::lemma_contains_trim(line);
        text::lemma_contains_transitive(line, text::trim(line), prefix);
        text::lemma_contains_line(comment, i);
        text::lemma_contains_transitive(comment, line, prefix);
    }
}

/// The view of the outcome of reading arguments.
pub open spec fn range_view(r: Result<(Option<String>, Option<String>), ParseError>) -> Result<
    Range,
    Rejection,
> {
    match r {
        Ok((start, end)) => Ok(Range { start: option_view(start), end: option_view(end) }),
        Err(e) => Err(e@),
    }
}

/// Reads the arguments of a directive: all of `tokens` but the first.
fn read_arguments(tokens: &Vec<&[char]>) -> (r: Result<(Option<String>, Option<String>), ParseError>)
    requires
        tokens.len() >= 1,
    ensures
        range_view(r) == parse_arguments(
            scan::views(tokens@).drop_first(),
            Range { start: None, end: None },
        ),
{
    let start_key = scan::chars_of("start=");
    let end_key = scan::chars_of("end=");
    let mut start: Option<String> = None;
    let mut end: Option<String> = None;
    let ghost all = scan::views(tokens@);
    let mut i: usize = 1;
    assert(all.skip(1) == all.drop_first());
    while i < tokens.len()
        invariant
            1 <= i <= tokens.len(),
            all == scan::views(tokens@),
            start_key@ == self::start_key(),
            end_key@ == self::end_key(),
            parse_arguments(all.drop_first(), Range { start: None, end: None }) == parse_arguments(
                all.skip(i as int),
                Range { start: option_view(start), end: option_view(end) },
            ),
        decreases tokens.len() - i,
    {
        let token = scan::trim(tokens[i]);
        proof {
            assert(all.skip(i as int)[0] == tokens[i as int]@);
            assert(all.skip(i as int).drop_first() == all.skip(i + 1));
        }
        if scan::starts_with(token, start_key.as_slice()) {
            if start.is_some() {
                return Err(ParseError::DuplicateKey(String::from_str("start")));
            }
            let value = slice_subrange(token, start_key.len(), token.len());
            assert(value@ == token@.skip(start_key.len() as int));
            start = Some(scan::string_of(value));
        } else if scan::starts_with(token, end_key.as_slice()) {
            if end.is_some() {
                return Err(ParseError::DuplicateKey(String::from_str("end")));
            }
            let value = slice_subrange(token, end_key.len(), token.len());
            assert(value@ == token@.skip(end_key.len() as int));
            end = Some(scan::string_of(value));
        } else {
            return Err(ParseError::UnknownArgument(scan::string_of(token)));
        }
        i += 1;
    }
    Ok((start, end))
}

/// The view of the outcome of reading a directive.
pub open spec fn directive_view(r: Result<(Option<String>, String), ParseError>) -> Result<
    (Option<Seq<char>>, Seq<char>),
    Rejection,
> {
    match r {
        Ok((start, end)) => Ok((option_view(start), end@)),
        Err(e) => Err(e@),
    }
}

/// Reads a directive: what follows the invocation prefix on its line.
fn read_directive(rest: &[char]) -> (r: Result<(Option<String>, String), ParseError>)
    ensures
        directive_view(r) == parse_directive(rest@),
{
    let tokens = scan::split(rest, ' ');
    proof {
        text::lemma_split_len(rest@, ' ');
    }
    let name = scan::trim(tokens[0]);
    if !scan::is_str(name, "bisect") {
        return Err(ParseError::UnknownCommand(scan::string_of(name)));
    }
    match read_arguments(&tokens) {
        Err(e) => Err(e),
        Ok((start, end)) => match end {
            None => Err(ParseError::MissingEnd),
            Some(end) => Ok((start, end)),
        },
    }
}

/// Reads the first code block in the lines from index `from` on.
fn read_code_block(lines: &Vec<&[char]>, from: usize) -> (r: Option<String>)
    requires
        from <= lines.len(),
    ensures
        option_view(r) == code_block(scan::views(lines@).skip(from as int)),
{
    let opening = scan::chars_of("```rust");
    let closing = scan::chars_of("```");
    let ghost rest = scan::views(lines@).skip(from as int);
    let mut i: usize = from;
    while i < lines.len() && !scan::equal(scan::trim(lines[i]), opening.as_slice())
        invariant
            from <= i <= lines.len(),
            opening@ == opening_fence(),
            rest == scan::views(lines@).skip(from as int),
            forall|k: int| 0 <= k < i - from ==> !fences(opening_fence())(#[trigger] rest[k]),
        decreases lines.len() - i,
    {
        assert(rest[i - from] == lines[i as int]@);
        i += 1;
    }
    proof {
        if i < lines.len() {
            assert(rest[i - from] == lines[i as int]@);
        }
        text::lemma_first_index_is(rest, fences(opening_fence()), i - from);
    }
    if i == lines.len() {
        return None;
    }
    let first: usize = i + 1;
    let ghost body = rest.skip(i - from + 1);
    let mut code = String::new();
    let mut j: usize = first;
    while j < lines.len() && !scan::equal(scan::trim(lines[j]), closing.as_slice())
        invariant
            from <= first <= j <= lines.len(),
            closing@ == closing_fence(),
            body == scan::views(lines@).skip(first as int),
            forall|k: int| 0 <= k < j - first ==> !fences(closing_fence())(#[trigger] body[k]),
            code@ == text::join(body.take(j - first), '\n'),
        decreases lines.len() - j,
    {
        assert(body[j - first] == lines[j as int]@);
        proof {
            let taken = body.take(j - first + 1);
            assert(taken.drop_last() == body.take(j - first));
            assert(taken.last() == lines[j as int]@);
        }
        if j > first {
            code.push('\n');
        }
        scan::push_chars(&mut code, lines[j]);
        j += 1;
    }
    proof {
        if j < lines.len() {
            assert(body[j - first] == lines[j as int]@);
        }
        text::lemma_first_index_is(body, fences(closing_fence()), j - first);
    }
    Some(code)
}

impl Command {
    /// The command that `comment` holds, if it holds one. Only the first
    /// line that invokes the bot is honoured, and a comment without such a
    /// line is no command and no error.
    pub fn parse_comment(comment: &str) -> (r: Result<Option<Command>, ParseError>)
        ensures
            parse_view(r) == parse(comment@),
    {
        let chars = scan::chars_of(comment);
        let prefix = scan::chars_of(BOT_NAME);
        let lines = scan::lines(chars.as_slice());
        let mut i: usize = 0;
        while i < lines.len()
            invariant
                i <= lines.len(),
                prefix@ == invocation_prefix(),
                scan::views(lines@) == text::lines(comment@),
                forall|k: int| 0 <= k < i ==> !is_invocation(#[trigger] scan::views(lines@)[k]),
            decreases lines.len() - i,
        {
            let line = scan::trim(lines[i]);
            if scan::starts_with(line, prefix.as_slice()) {
                let rest = scan::trim(slice_subrange(line, prefix.len(), line.len()));
                proof {
                    text::lemma_first_index_is(scan::views(lines@), invocations(), i as int);
                    assert(scan::views(lines@)[i as int] == lines[i as int]@);
                    assert(line@.skip(prefix.len() as int) == line@.subrange(
                        prefix.len() as int,
                        line.len() as int,
                    ));
                }
                return match read_directive(rest) {
                    Err(e) => Err(e),
                    Ok((start, end)) => match read_code_block(&lines, i + 1) {
                        None => Err(ParseError::MissingCodeFence),
                        Some(code) => Ok(Some(Command::Bisect { start, end, code })),
                    },
                };
            }
            i += 1;
        }
        proof {
            text::lemma_first_index_is(scan::views(lines@), invocations(), i as int);
        }
        Ok(None)
    }
}

} // verus!
