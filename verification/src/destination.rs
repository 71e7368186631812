//! Where a reply must be delivered, and the one-line text form in which a
//! destination travels inside a commit message.

use crate::decimal;
use crate::scan;
use crate::text;
use vstd::prelude::*;
use vstd::slice::slice_subrange;

verus! {

/// The target of an outgoing reply.
#[derive(Debug, PartialEq, Eq)]
pub enum ReplyTo {
    /// A comment on an issue of a repository.
    IssueComment { repo: String, issue_number: u64 },
    /// A message to a topic of a chat channel.
    ChannelMessage { channel_id: u64, topic: String },
    /// A direct chat message to one user.
    DirectMessage { user_id: u64 },
}

/// The mathematical value of a `ReplyTo`.
pub enum Destination {
    IssueComment { repo: Seq<char>, issue_number: u64 },
    ChannelMessage { channel_id: u64, topic: Seq<char> },
    DirectMessage { user_id: u64 },
}

impl View for ReplyTo {
    type V = Destination;

    open spec fn view(&self) -> Destination {
        match self {
            ReplyTo::IssueComment { repo, issue_number } => Destination::IssueComment {
                repo: repo@,
                issue_number: *issue_number,
            },
            ReplyTo::ChannelMessage { channel_id, topic } => Destination::ChannelMessage {
                channel_id: *channel_id,
                topic: topic@,
            },
            ReplyTo::DirectMessage { user_id } => Destination::DirectMessage { user_id: *user_id },
        }
    }
}

impl Clone for ReplyTo {
    fn clone(&self) -> (r: ReplyTo)
        ensures
            r@ == self@,
    {
        match self {
            ReplyTo::IssueComment { repo, issue_number } => ReplyTo::IssueComment {
                repo: repo.clone(),
                issue_number: *issue_number,
            },
            ReplyTo::ChannelMessage { channel_id, topic } => ReplyTo::ChannelMessage {
                channel_id: *channel_id,
                topic: topic.clone(),
            },
            ReplyTo::DirectMessage { user_id } => ReplyTo::DirectMessage { user_id: *user_id },
        }
    }
}

/// Why no destination could be read from a text.
#[derive(Debug, Clone, Copy, PartialEq, Eq)]
pub enum DecodeError {
    /// No line of the text begins with the header token.
    NoHeaderFound,
    /// The header names a known kind, but what follows does not have the
    /// shape of that kind.
    MalformedPayload,
    /// The header names no known kind.
    UnknownKind,
}

/// The token that a header line begins with.
pub const COMMIT_HEADER: &'static str = "X-Bisectbot-Reply-To";

/// The characters of the header token.
pub open spec fn header_token() -> Seq<char> {
    COMMIT_HEADER@
}

/// The kind of an issue comment.
pub open spec fn kind_issue() -> Seq<char> {
    "issue"@
}

/// The kind of a channel message.
pub open spec fn kind_channel() -> Seq<char> {
    "channel"@
}

/// The kind of a direct message.
pub open spec fn kind_user() -> Seq<char> {
    "user"@
}

/// The kind of `d`.
pub open spec fn kind_of(d: Destination) -> Seq<char> {
    match d {
        Destination::IssueComment { .. } => kind_issue(),
        Destination::ChannelMessage { .. } => kind_channel(),
        Destination::DirectMessage { .. } => kind_user(),
    }
}

/// The payload of `d`: a repository, `#` and the numeral of the issue; the
/// numeral of a channel, ` | ` and the topic; the numeral of a user.
pub open spec fn encode_payload(d: Destination) -> Seq<char> {
    match d {
        Destination::IssueComment { repo, issue_number } => repo + seq!['#'] + decimal::decimal(
            issue_number as nat,
        ),
        Destination::ChannelMessage { channel_id, topic } => decimal::decimal(channel_id as nat)
            + seq![' ', '|', ' '] + topic,
        Destination::DirectMessage { user_id } => decimal::decimal(user_id as nat),
    }
}

/// The kind and payload of `d`, as they follow the header token.
pub open spec fn encode_body(d: Destination) -> Seq<char> {
    kind_of(d) + seq![' '] + encode_payload(d)
}

/// The header line that stands for `d`.
pub open spec fn encode(d: Destination) -> Seq<char> {
    header_token() + seq![':', ' '] + encode_body(d)
}

/// Whether `line`, once trimmed, begins with the header token.
pub open spec fn is_header_line(line: Seq<char>) -> bool {
    header_token().is_prefix_of(text::trim(line))
}

/// The predicate `is_header_line`.
pub open spec fn header_lines() -> spec_fn(Seq<char>) -> bool {
    |line: Seq<char>| is_header_line(line)
}

/// What a header line says: the line as it stands after its leading
/// whitespace, the token and the one character that follows the token,
/// without the whitespace that comes before the kind. The end of the line
/// is left as it is.
pub open spec fn header_body(line: Seq<char>) -> Seq<char> {
    let start = text::trim_start(line);
    if start.len() > header_token().len() {
        text::trim_start(start.skip(header_token().len() as int + 1))
    } else {
        Seq::empty()
    }
}

/// `s` without one leading space.
pub open spec fn skip_space(s: Seq<char>) -> Seq<char> {
    if s.len() > 0 && s[0] == ' ' {
        s.drop_first()
    } else {
        s
    }
}

/// The destination of kind `issue` that the space-separated `tokens` of a
/// header body give: exactly two tokens, the second of them a repository,
/// a `#` and a numeral. The repository is taken as it stands; whitespace
/// around the numeral does not count.
pub open spec fn decode_issue(tokens: Seq<Seq<char>>) -> Result<Destination, DecodeError> {
    if tokens.len() != 2 {
        Err(DecodeError::MalformedPayload)
    } else {
        let parts = text::split(tokens[1], '#');
        if parts.len() != 2 {
            Err(DecodeError::MalformedPayload)
        } else {
            match decimal::parse(text::trim(parts[1])) {
                Some(issue_number) => Ok(Destination::IssueComment { repo: parts[0], issue_number }),
                None => Err(DecodeError::MalformedPayload),
            }
        }
    }
}

/// The destination of kind `user` that the space-separated `tokens` of a
/// header body give: exactly two tokens, the second of them a numeral.
/// Whitespace around the numeral does not count.
pub open spec fn decode_user(tokens: Seq<Seq<char>>) -> Result<Destination, DecodeError> {
    if tokens.len() != 2 {
        Err(DecodeError::MalformedPayload)
    } else {
        match decimal::parse(text::trim(tokens[1])) {
            Some(user_id) => Ok(Destination::DirectMessage { user_id }),
            None => Err(DecodeError::MalformedPayload),
        }
    }
}

/// The destination of kind `channel` that the header body `body` gives. Its
/// payload is what follows the first space. The first `|` of the payload
/// parts the numeral of the channel, around which whitespace does not
/// count, from the topic. The topic is all the rest as it stands, to the
/// end of the line, without the one space that follows the `|`.
pub open spec fn decode_channel(body: Seq<char>) -> Result<Destination, DecodeError> {
    let space = text::find(body, ' ');
    if space >= body.len() {
        Err(DecodeError::MalformedPayload)
    } else {
        let payload = body.skip(space + 1);
        let bar = text::find(payload, '|');
        if bar >= payload.len() {
            Err(DecodeError::MalformedPayload)
        } else {
            match decimal::parse(text::trim(payload.take(bar))) {
                Some(channel_id) => Ok(
                    Destination::ChannelMessage {
                        channel_id,
                        topic: skip_space(payload.skip(bar + 1)),
                    },
                ),
                None => Err(DecodeError::MalformedPayload),
            }
        }
    }
}

/// The destination that a header body gives. Its first space-separated
/// token is the kind.
pub open spec fn decode_body(body: Seq<char>) -> Result<Destination, DecodeError> {
    let tokens = text::split(body, ' ');
    let kind = tokens[0];
    if kind == kind_issue() {
        decode_issue(tokens)
    } else if kind == kind_channel() {
        decode_channel(body)
    } else if kind == kind_user() {
        decode_user(tokens)
    } else {
        Err(DecodeError::UnknownKind)
    }
}

/// The destination that `message` carries: that of its first header line.
/// A line is trimmed to see whether it is a header line, and is read as it
/// stands.
pub open spec fn decode(message: Seq<char>) -> Result<Destination, DecodeError> {
    let lines = text::lines(message);
    let i = text::first_index(lines, header_lines());
    if 0 <= i < lines.len() {
        decode_body(header_body(lines[i]))
    } else {
        Err(DecodeError::NoHeaderFound)
    }
}

/// Whether `d` survives the text form: encoding it and decoding the line
/// gives `d` back, character for character. A repository must hold no
/// space, `#` or line feed, and a topic no line feed. Any other destination
/// is changed or lost on the way.
pub open spec fn round_trips(d: Destination) -> bool {
    match d {
        Destination::IssueComment { repo, .. } => {
            &&& !repo.contains(' ')
            &&& !repo.contains('#')
            &&& !repo.contains('\n')
        },
        Destination::ChannelMessage { topic, .. } => !topic.contains('\n'),
        Destination::DirectMessage { .. } => true,
    }
}

/// The characters of the header token and of the kinds.
proof fn lemma_literals()
    ensures
        header_token() == seq![
            'X', '-', 'B', 'i', 's', 'e', 'c', 't', 'b', 'o', 't', '-', 'R', 'e', 'p', 'l', 'y', '-', 'T',
            'o',
        ],
        kind_issue() == seq!['i', 's', 's', 'u', 'e'],
        kind_channel() == seq!['c', 'h', 'a', 'n', 'n', 'e', 'l'],
        kind_user() == seq!['u', 's', 'e', 'r'],
{
    reveal_strlit("X-Bisectbot-Reply-To");
    reveal_strlit("issue");
    reveal_strlit("channel");
    reveal_strlit("user");
    assert(header_token() =~= seq![
        'X', '-', 'B', 'i', 's', 'e', 'c', 't', 'b', 'o', 't', '-', 'R', 'e', 'p', 'l', 'y', '-', 'T', 'o',
    ]);
    assert(kind_issue() =~= seq!['i', 's', 's', 'u', 'e']);
    assert(kind_channel() =~= seq!['c', 'h', 'a', 'n', 'n', 'e', 'l']);
    assert(kind_user() =~= seq!['u', 's', 'e', 'r']);
}

/// A message that is one header line carries what the body of that line
/// says.
proof fn lemma_decode_line(body: Seq<char>)
    requires
        body.len() > 0,
        !text::is_whitespace(body[0]),
        !body.contains('\n'),
    ensures
        decode(header_token() + seq![':', ' '] + body) == decode_body(body),
{
    let token = header_token();
    let line = token + seq![':', ' '] + body;
    assert(token.len() == 20 && token[0] == 'X' && token[19] == 'o' && !token.contains('\n')) by {
        lemma_literals();
    }
    assert(!line.contains('\n')) by {
        text::lemma_concat_lacks(token, seq![':', ' '], '\n');
        text::lemma_concat_lacks(token + seq![':', ' '], body, '\n');
    }
    text::lemma_lines_single(line);
    assert(line[0] == 'X');
    assert(text::trim_start(line) == line);
    assert(is_header_line(line)) by {
        assert(line[19] == 'o');
        text::lemma_trim_end_keeps(line, 19);
        text::lemma_trim_end_prefix(line);
        assert(text::trim(line).subrange(0, 20) == token);
    }
    assert(header_lines()(line));
    text::lemma_first_index_is(text::lines(line), header_lines(), 0);
    assert(header_body(line) == body) by {
        let rest = line.skip(token.len() as int + 1);
        assert(rest == seq![' '] + body);
        assert(rest.drop_first() == body);
        assert(text::trim_start(rest) == text::trim_start(body));
        assert(text::trim_start(body) == body);
    }
}

/// A line before the header that is no header line itself does not change
/// what a message carries.
pub proof fn lemma_decode_skips_line(first: Seq<char>, rest: Seq<char>)
    requires
        !first.contains('\n'),
        !is_header_line(text::strip_cr(first)),
    ensures
        decode(first + seq!['\n'] + rest) == decode(rest),
{
    let message = first + seq!['\n'] + rest;
    text::lemma_lines_concat(first, rest);
    let lines = text::lines(message);
    let tail = text::lines(rest);
    assert(lines.drop_first() == tail);
    assert(!header_lines()(lines[0]));
    text::lemma_first_index(tail, header_lines());
    let i = text::first_index(tail, header_lines());
    assert(text::first_index(lines, header_lines()) == 1 + i);
    if i < tail.len() {
        assert(lines[1 + i] == tail[i]);
    }
}

/// The body of the line of an issue comment that round-trips decodes to it.
proof fn lemma_decode_issue(repo: Seq<char>, issue_number: u64)
    requires
        round_trips(Destination::IssueComment { repo, issue_number }),
    ensures
        decode_body(encode_body(Destination::IssueComment { repo, issue_number })) == Ok::<
            Destination,
            DecodeError,
        >(Destination::IssueComment { repo, issue_number }),
{
    let number = decimal::decimal(issue_number as nat);
    let payload = repo + seq!['#'] + number;
    let body = kind_issue() + seq![' '] + payload;
    decimal::lemma_decimal_digits(issue_number as nat);
    assert(body == encode_body(Destination::IssueComment { repo, issue_number }));
    assert(text::is_trimmed(number)) by {
        assert(decimal::is_digit(number[0]));
        assert(decimal::is_digit(number.last()));
    }
    assert(text::split(body, ' ') == seq![kind_issue(), payload]) by {
        lemma_kinds_lack(' ');
        decimal::lemma_decimal_lacks(issue_number as nat, ' ');
        text::lemma_concat_lacks(repo, seq!['#'], ' ');
        text::lemma_concat_lacks(repo + seq!['#'], number, ' ');
        text::lemma_split_concat(kind_issue(), payload, ' ');
        text::lemma_split_single(payload, ' ');
    }
    assert(kind_issue() != kind_channel() && kind_issue() != kind_user()) by {
        lemma_literals();
    }
    assert(text::split(payload, '#') == seq![repo, number]) by {
        decimal::lemma_decimal_lacks(issue_number as nat, '#');
        text::lemma_split_concat(repo, number, '#');
        text::lemma_split_single(number, '#');
    }
    decimal::lemma_parse_decimal(issue_number);
}

/// The body of the line of a direct message decodes to it.
proof fn lemma_decode_user(user_id: u64)
    ensures
        decode_body(encode_body(Destination::DirectMessage { user_id })) == Ok::<
            Destination,
            DecodeError,
        >(Destination::DirectMessage { user_id }),
{
    let number = decimal::decimal(user_id as nat);
    let body = kind_user() + seq![' '] + number;
    decimal::lemma_decimal_digits(user_id as nat);
    assert(text::is_trimmed(number)) by {
        assert(decimal::is_digit(number[0]));
        assert(decimal::is_digit(number.last()));
    }
    assert(text::split(body, ' ') == seq![kind_user(), number]) by {
        lemma_kinds_lack(' ');
        decimal::lemma_decimal_lacks(user_id as nat, ' ');
        text::lemma_split_concat(kind_user(), number, ' ');
        text::lemma_split_single(number, ' ');
    }
    assert(kind_user() != kind_channel() && kind_user() != kind_issue()) by {
        lemma_literals();
    }
    decimal::lemma_parse_decimal(user_id);
}

/// Where `number` holds digits only, the payload made of `number`, a space,
/// a `|` and `after` parts at that `|`.
proof fn lemma_channel_payload(number: Seq<char>, after: Seq<char>)
    requires
        number.len() > 0,
        decimal::all_digits(number),
    ensures
        text::find(number + seq![' ', '|'] + after, '|') == number.len() + 1,
        (number + seq![' ', '|'] + after).take(number.len() as int + 1) == number.push(' '),
        (number + seq![' ', '|'] + after).skip(number.len() as int + 2) == after,
        text::trim(number.push(' ')) == number,
{
    let payload = number + seq![' ', '|'] + after;
    let number_space = number.push(' ');
    let bar_on = seq!['|'] + after;
    assert(!number_space.contains('|')) by {
        assert forall|k: int| 0 <= k < number_space.len() implies number_space[k] != '|' by {
            if k < number.len() {
                assert(decimal::is_digit(number[k]));
            }
        }
    }
    assert(payload == number_space + bar_on);
    text::lemma_find_concat(number_space, bar_on, '|');
    assert(bar_on[0] == '|');
    assert(text::find(bar_on, '|') == 0);
    assert(payload.take(number.len() as int + 1) == number_space);
    assert(payload.skip(number.len() as int + 2) == after);
    assert(text::trim(number_space) == number) by {
        assert(decimal::is_digit(number[0]));
        assert(decimal::is_digit(number.last()));
        assert(number_space[0] == number[0]);
        assert(text::trim_start(number_space) == number_space);
        text::lemma_trim_end_push(number, ' ');
    }
}

/// A kind, a space and a payload part at that space.
proof fn lemma_body_parts(kind: Seq<char>, payload: Seq<char>)
    requires
        !kind.contains(' '),
    ensures
        text::find(kind + seq![' '] + payload, ' ') == kind.len(),
        (kind + seq![' '] + payload).skip(kind.len() as int + 1) == payload,
        text::split(kind + seq![' '] + payload, ' ') == seq![kind] + text::split(payload, ' '),
{
    let body = kind + seq![' '] + payload;
    let tail = seq![' '] + payload;
    text::lemma_find_concat(kind, tail, ' ');
    assert(body == kind + tail);
    assert(tail[0] == ' ');
    assert(text::find(tail, ' ') == 0);
    text::lemma_split_concat(kind, payload, ' ');
}

/// The body of the line of a channel message decodes to it.
proof fn lemma_decode_channel(channel_id: u64, topic: Seq<char>)
    ensures
        decode_body(encode_body(Destination::ChannelMessage { channel_id, topic })) == Ok::<
            Destination,
            DecodeError,
        >(Destination::ChannelMessage { channel_id, topic }),
{
    let kind = kind_channel();
    let number = decimal::decimal(channel_id as nat);
    let after = seq![' '] + topic;
    let payload = number + seq![' ', '|'] + after;
    let body = kind + seq![' '] + payload;
    assert(payload == encode_payload(Destination::ChannelMessage { channel_id, topic })) by {
        assert(seq![' ', '|', ' '] + topic == seq![' ', '|'] + after);
    }
    assert(text::find(body, ' ') == kind.len() && body.skip(kind.len() as int + 1) == payload
        && text::split(body, ' ')[0] == kind) by {
        lemma_kinds_lack(' ');
        lemma_body_parts(kind, payload);
    }
    assert(kind != kind_issue()) by {
        lemma_literals();
    }
    assert(decode_channel(body) == Ok::<Destination, DecodeError>(
        Destination::ChannelMessage { channel_id, topic },
    )) by {
        decimal::lemma_decimal_digits(channel_id as nat);
        lemma_channel_payload(number, after);
        decimal::lemma_parse_decimal(channel_id);
        assert(after.drop_first() == topic);
        assert(skip_space(after) == topic);
    }
}

/// The kinds hold lower-case letters only.
proof fn lemma_kinds_lack(c: char)
    requires
        !('a' <= c <= 'z'),
    ensures
        !kind_issue().contains(c),
        !kind_channel().contains(c),
        !kind_user().contains(c),
{
    lemma_literals();
}

/// The kind and payload of a destination that round-trips begin with a
/// letter and hold no line feed.
proof fn lemma_encoded_body(d: Destination)
    requires
        round_trips(d),
    ensures
        encode_body(d).len() > 0,
        !text::is_whitespace(encode_body(d)[0]),
        !encode_body(d).contains('\n'),
{
    lemma_kinds_lack('\n');
    assert(!text::is_whitespace(encode_body(d)[0])) by {
        lemma_literals();
    }
    match d {
        Destination::IssueComment { repo, issue_number } => {
            let number = decimal::decimal(issue_number as nat);
            decimal::lemma_decimal_lacks(issue_number as nat, '\n');
            text::lemma_concat_lacks(kind_issue(), seq![' '], '\n');
            text::lemma_concat_lacks(kind_issue() + seq![' '], repo, '\n');
            text::lemma_concat_lacks(kind_issue() + seq![' '] + repo, seq!['#'], '\n');
            text::lemma_concat_lacks(kind_issue() + seq![' '] + repo + seq!['#'], number, '\n');
        },
        Destination::ChannelMessage { channel_id, topic } => {
            let number = decimal::decimal(channel_id as nat);
            decimal::lemma_decimal_lacks(channel_id as nat, '\n');
            text::lemma_concat_lacks(kind_channel(), seq![' '], '\n');
            text::lemma_concat_lacks(kind_channel() + seq![' '], number, '\n');
            text::lemma_concat_lacks(kind_channel() + seq![' '] + number, seq![' ', '|', ' '], '\n');
            text::lemma_concat_lacks(
                kind_channel() + seq![' '] + number + seq![' ', '|', ' '],
                topic,
                '\n',
            );
        },
        Destination::DirectMessage { user_id } => {
            let number = decimal::decimal(user_id as nat);
            decimal::lemma_decimal_lacks(user_id as nat, '\n');
            text::lemma_concat_lacks(kind_user(), seq![' '], '\n');
            text::lemma_concat_lacks(kind_user() + seq![' '], number, '\n');
        },
    }
}

/// Round trip: decoding the header line of a destination gives the
/// destination back, character for character, for every destination that
/// `round_trips` admits.
pub proof fn lemma_round_trip(d: Destination)
    requires
        round_trips(d),
    ensures
        decode(encode(d)) == Ok::<Destination, DecodeError>(d),
{
    lemma_encoded_body(d);
    lemma_decode_line(encode_body(d));
    match d {
        Destination::IssueComment { repo, issue_number } => {
            lemma_decode_issue(repo, issue_number);
        },
        Destination::ChannelMessage { channel_id, topic } => {
            lemma_decode_channel(channel_id, topic);
        },
        Destination::DirectMessage { user_id } => {
            lemma_decode_user(user_id);
        },
    }
}

/// A repository, a `#` and a numeral tell the repository and the number:
/// the numeral holds no `#`, so the last `#` parts them.
proof fn lemma_issue_payload_injective(
    repo_a: Seq<char>,
    number_a: u64,
    repo_b: Seq<char>,
    number_b: u64,
)
    requires
        repo_a + seq!['#'] + decimal::decimal(number_a as nat) == repo_b + seq!['#']
            + decimal::decimal(number_b as nat),
    ensures
        repo_a == repo_b,
        number_a == number_b,
{
    let digits_a = decimal::decimal(number_a as nat);
    let digits_b = decimal::decimal(number_b as nat);
    let payload_a = repo_a + seq!['#'] + digits_a;
    let payload_b = repo_b + seq!['#'] + digits_b;
    decimal::lemma_decimal_digits(number_a as nat);
    decimal::lemma_decimal_digits(number_b as nat);
    assert(payload_a == payload_b);
    assert(payload_a.len() == repo_a.len() + 1 + digits_a.len());
    assert(payload_b.len() == repo_b.len() + 1 + digits_b.len());
    if repo_a.len() < repo_b.len() {
        let k = repo_b.len() as int;
        let j = k - repo_a.len() - 1;
        assert(payload_b[k] == '#');
        assert(0 <= j < digits_a.len());
        assert(payload_a[k] == digits_a[j]);
        assert(decimal::is_digit(digits_a[j]));
    }
    if repo_b.len() < repo_a.len() {
        let k = repo_a.len() as int;
        let j = k - repo_b.len() - 1;
        assert(payload_a[k] == '#');
        assert(0 <= j < digits_b.len());
        assert(payload_b[k] == digits_b[j]);
        assert(decimal::is_digit(digits_b[j]));
    }
    assert(repo_a == payload_a.take(repo_a.len() as int));
    assert(repo_b == payload_b.take(repo_b.len() as int));
    assert(digits_a == payload_a.skip(repo_a.len() as int + 1));
    assert(digits_b == payload_b.skip(repo_b.len() as int + 1));
    decimal::lemma_decimal_injective(number_a as nat, number_b as nat);
}

/// A numeral, ` | ` and a topic tell the number and the topic: the numeral
/// holds no space, so the first space ends it.
proof fn lemma_channel_payload_injective(
    channel_a: u64,
    topic_a: Seq<char>,
    channel_b: u64,
    topic_b: Seq<char>,
)
    requires
        decimal::decimal(channel_a as nat) + seq![' ', '|', ' '] + topic_a == decimal::decimal(
            channel_b as nat,
        ) + seq![' ', '|', ' '] + topic_b,
    ensures
        channel_a == channel_b,
        topic_a == topic_b,
{
    let digits_a = decimal::decimal(channel_a as nat);
    let digits_b = decimal::decimal(channel_b as nat);
    let payload_a = digits_a + seq![' ', '|', ' '] + topic_a;
    let payload_b = digits_b + seq![' ', '|', ' '] + topic_b;
    decimal::lemma_decimal_digits(channel_a as nat);
    decimal::lemma_decimal_digits(channel_b as nat);
    assert(payload_a == payload_b);
    if digits_a.len() < digits_b.len() {
        let k = digits_a.len() as int;
        assert(payload_a[k] == ' ');
        assert(payload_b[k] == digits_b[k]);
        assert(decimal::is_digit(digits_b[k]));
    }
    if digits_b.len() < digits_a.len() {
        let k = digits_b.len() as int;
        assert(payload_b[k] == ' ');
        assert(payload_a[k] == digits_a[k]);
        assert(decimal::is_digit(digits_a[k]));
    }
    assert(digits_a == payload_a.take(digits_a.len() as int));
    assert(digits_b == payload_b.take(digits_b.len() as int));
    assert(topic_a == payload_a.skip(digits_a.len() as int + 3));
    assert(topic_b == payload_b.skip(digits_b.len() as int + 3));
    decimal::lemma_decimal_injective(channel_a as nat, channel_b as nat);
}

/// The header line tells destinations apart: two destinations with the
/// same header line are the same destination, whatever their repository or
/// topic holds.
pub proof fn lemma_encode_injective(a: Destination, b: Destination)
    requires
        encode(a) == encode(b),
    ensures
        a == b,
{
    let prefix = header_token() + seq![':', ' '];
    assert(encode_body(a) == encode_body(b)) by {
        assert(encode(a).skip(prefix.len() as int) == encode_body(a));
        assert(encode(b).skip(prefix.len() as int) == encode_body(b));
    }
    assert(encode_body(a) == kind_of(a) + seq![' '] + encode_payload(a));
    assert(encode_body(b) == kind_of(b) + seq![' '] + encode_payload(b));
    assert(kind_of(a) == kind_of(b)) by {
        lemma_literals();
        assert(encode_body(a)[0] == kind_of(a)[0]);
        assert(encode_body(b)[0] == kind_of(b)[0]);
    }
    assert(encode_payload(a) == encode_payload(b)) by {
        assert(encode_body(a).skip(kind_of(a).len() as int + 1) == encode_payload(a));
        assert(encode_body(b).skip(kind_of(b).len() as int + 1) == encode_payload(b));
    }
    assert(kind_issue() != kind_channel() && kind_issue() != kind_user() && kind_channel()
        != kind_user()) by {
        lemma_literals();
    }
    match (a, b) {
        (
            Destination::IssueComment { repo: repo_a, issue_number: number_a },
            Destination::IssueComment { repo: repo_b, issue_number: number_b },
        ) => {
            lemma_issue_payload_injective(repo_a, number_a, repo_b, number_b);
        },
        (
            Destination::ChannelMessage { channel_id: channel_a, topic: topic_a },
            Destination::ChannelMessage { channel_id: channel_b, topic: topic_b },
        ) => {
            lemma_channel_payload_injective(channel_a, topic_a, channel_b, topic_b);
        },
        (
            Destination::DirectMessage { user_id: user_a },
            Destination::DirectMessage { user_id: user_b },
        ) => {
            decimal::lemma_decimal_injective(user_a as nat, user_b as nat);
        },
        _ => {},
    }
}

/// Whatever a message carries survives the text form: the decoder gives
/// no destination that `round_trips` does not admit.
pub proof fn lemma_decoded_round_trips(message: Seq<char>, d: Destination)
    requires
        decode(message) == Ok::<Destination, DecodeError>(d),
    ensures
        round_trips(d),
{
    let lines = text::lines(message);
    let i = text::first_index(lines, header_lines());
    text::lemma_first_index(lines, header_lines());
    let line = lines[i];
    text::lemma_line_lacks_line_feed(message, i);
    let body = header_body(line);
    assert(!body.contains('\n')) by {
        let start = text::trim_start(line);
        text::lemma_contains_trim(line);
        text::lemma_contained_lacks(line, start, '\n');
        if start.len() > header_token().len() {
            let rest = start.skip(header_token().len() as int + 1);
            text::lemma_contains_subrange(
                start,
                header_token().len() as int + 1,
                start.len() as int,
            );
            text::lemma_contained_lacks(start, rest, '\n');
            text::lemma_contains_trim(rest);
            text::lemma_contained_lacks(rest, body, '\n');
        }
    }
    let tokens = text::split(body, ' ');
    match d {
        Destination::IssueComment { repo, issue_number } => {
            let token = tokens[1];
            text::lemma_split_piece(body, ' ', 1);
            text::lemma_contained_lacks(body, token, '\n');
            assert(repo == text::split(token, '#')[0]);
            text::lemma_split_piece(token, '#', 0);
            text::lemma_contained_lacks(token, repo, '\n');
            text::lemma_contained_lacks(token, repo, ' ');
        },
        Destination::ChannelMessage { channel_id, topic } => {
            let space = text::find(body, ' ');
            let payload = body.skip(space + 1);
            let bar = text::find(payload, '|');
            text::lemma_find(body, ' ');
            text::lemma_find(payload, '|');
            let after = payload.skip(bar + 1);
            assert(topic == skip_space(after));
            assert forall|k: int| 0 <= k < topic.len() implies topic[k] != '\n' by {
                assert(topic[k] == body[body.len() - topic.len() + k]);
            }
        },
        Destination::DirectMessage { .. } => {},
    }
}

/// Round trip, both ways: decoding the header line of a destination gives
/// the destination back if, and only if, `round_trips` admits it.
pub proof fn lemma_round_trip_exact(d: Destination)
    ensures
        decode(encode(d)) == Ok::<Destination, DecodeError>(d) <==> round_trips(d),
{
    if round_trips(d) {
        lemma_round_trip(d);
    }
    if decode(encode(d)) == Ok::<Destination, DecodeError>(d) {
        lemma_decoded_round_trips(encode(d), d);
    }
}

/// The view of a decoding result.
pub open spec fn result_view(r: Result<ReplyTo, DecodeError>) -> Result<Destination, DecodeError> {
    match r {
        Ok(d) => Ok(d@),
        Err(e) => Err(e),
    }
}

fn decode_issue_tokens(tokens: &Vec<&[char]>) -> (r: Result<ReplyTo, DecodeError>)
    requires
        tokens.len() >= 1,
    ensures
        result_view(r) == decode_issue(scan::views(tokens@)),
{
    if tokens.len() != 2 {
        return Err(DecodeError::MalformedPayload);
    }
    let parts = scan::split(tokens[1], '#');
    if parts.len() != 2 {
        return Err(DecodeError::MalformedPayload);
    }
    match decimal::parse_u64(scan::trim(parts[1])) {
        Some(issue_number) => Ok(
            ReplyTo::IssueComment { repo: scan::string_of(parts[0]), issue_number },
        ),
        None => Err(DecodeError::MalformedPayload),
    }
}

fn decode_user_tokens(tokens: &Vec<&[char]>) -> (r: Result<ReplyTo, DecodeError>)
    requires
        tokens.len() >= 1,
    ensures
        result_view(r) == decode_user(scan::views(tokens@)),
{
    if tokens.len() != 2 {
        return Err(DecodeError::MalformedPayload);
    }
    match decimal::parse_u64(scan::trim(tokens[1])) {
        Some(user_id) => Ok(ReplyTo::DirectMessage { user_id }),
        None => Err(DecodeError::MalformedPayload),
    }
}

fn decode_channel_body(body: &[char]) -> (r: Result<ReplyTo, DecodeError>)
    ensures
        result_view(r) == decode_channel(body@),
{
    let space = scan::find(body, ' ');
    if space >= body.len() {
        return Err(DecodeError::MalformedPayload);
    }
    let payload = slice_subrange(body, space + 1, body.len());
    let bar = scan::find(payload, '|');
    if bar >= payload.len() {
        return Err(DecodeError::MalformedPayload);
    }
    match decimal::parse_u64(scan::trim(slice_subrange(payload, 0, bar))) {
        Some(channel_id) => {
            let after = slice_subrange(payload, bar + 1, payload.len());
            let topic = if after.len() > 0 && after[0] == ' ' {
                slice_subrange(after, 1, after.len())
            } else {
                after
            };
            Ok(ReplyTo::ChannelMessage { channel_id, topic: scan::string_of(topic) })
        },
        None => Err(DecodeError::MalformedPayload),
    }
}

fn decode_header_body(body: &[char]) -> (r: Result<ReplyTo, DecodeError>)
    ensures
        result_view(r) == decode_body(body@),
{
    let tokens = scan::split(body, ' ');
    proof {
        text::lemma_split_len(body@, ' ');
    }
    let kind = tokens[0];
    if scan::is_str(kind, "issue") {
        decode_issue_tokens(&tokens)
    } else if scan::is_str(kind, "channel") {
        decode_channel_body(body)
    } else if scan::is_str(kind, "user") {
        decode_user_tokens(&tokens)
    } else {
        Err(DecodeError::UnknownKind)
    }
}

impl ReplyTo {
    /// The header line that stands for this destination.
    pub fn to_commit_header(&self) -> (line: String)
        ensures
            line@ == encode(self@),
    {
        let mut line = String::from_str(COMMIT_HEADER);
        line.push(':');
        line.push(' ');
        match self {
            ReplyTo::IssueComment { repo, issue_number } => {
                line.append("issue");
                line.push(' ');
                line.append(repo.as_str());
                line.push('#');
                decimal::push_decimal(&mut line, *issue_number);
            },
            ReplyTo::ChannelMessage { channel_id, topic } => {
                line.append("channel");
                line.push(' ');
                decimal::push_decimal(&mut line, *channel_id);
                line.push(' ');
                line.push('|');
                line.push(' ');
                line.append(topic.as_str());
            },
            ReplyTo::DirectMessage { user_id } => {
                line.append("user");
                line.push(' ');
                decimal::push_decimal(&mut line, *user_id);
            },
        }
        line
    }

    /// The destination that `message` carries. The first line that, once
    /// trimmed, begins with the header token decides: a message without
    /// such a line carries none, and later lines are not looked at. The
    /// repository and the topic are taken from the line as they stand.
    pub fn from_commit_message(message: &str) -> (r: Result<ReplyTo, DecodeError>)
        ensures
            result_view(r) == decode(message@),
    {
        let chars = scan::chars_of(message);
        let token = scan::chars_of(COMMIT_HEADER);
        let lines = scan::lines(chars.as_slice());
        let mut i: usize = 0;
        while i < lines.len()
            invariant
                i <= lines.len(),
                token@ == header_token(),
                scan::views(lines@) == text::lines(message@),
                forall|k: int| 0 <= k < i ==> !is_header_line(#[trigger] scan::views(lines@)[k]),
            decreases lines.len() - i,
        {
            let line = lines[i];
            assert(scan::views(lines@)[i as int] == line@);
            if scan::starts_with(scan::trim(line), token.as_slice()) {
                proof {
                    text::lemma_first_index_is(scan::views(lines@), header_lines(), i as int);
                }
                let start = scan::trim_start(line);
                let body = if start.len() > token.len() {
                    scan::trim_start(slice_subrange(start, token.len() + 1, start.len()))
                } else {
                    slice_subrange(start, 0, 0)
                };
                proof {
                    assert(start@.skip(token.len() + 1) == start@.subrange(
                        token.len() + 1,
                        start.len() as int,
                    ));
                    assert(body@ == header_body(line@));
                }
                return decode_header_body(body);
            }
            i += 1;
        }
        proof {
            text::lemma_first_index_is(scan::views(lines@), header_lines(), i as int);
        }
        Err(DecodeError::NoHeaderFound)
    }
}

} // verus!
