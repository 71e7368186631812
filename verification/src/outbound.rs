//! The outbound calls: where a reply is posted, and the addresses of the
//! lookups and of the chat feed.

use crate::decimal;
use crate::destination::Destination;
use crate::destination::ReplyTo;
use crate::dispatch::Message;
use crate::dispatch::Reply;
use crate::job::Request;
use crate::job::StoreRequest;
use crate::scan::option_view;
use vstd::prelude::*;

verus! {

/// The address under which issues of a repository are reached.
pub const ISSUE_API: &'static str = "https://api.github.com/repos/";

/// The address of the commits of the job repository.
pub const COMMIT_API: &'static str =
    "https://api.github.com/repos/bjorn3/cargo-bisect-rustc-bot-jobs/git/commits/";

/// The address of the object store of the job repository.
pub const STORE_API: &'static str =
    "https://api.github.com/repos/bjorn3/cargo-bisect-rustc-bot-jobs/git/";

/// The address that registers an event queue with the chat service.
pub const REGISTER_URL: &'static str = "https://rust-lang.zulipchat.com/api/v1/register";

/// The form that asks for a queue of message events.
pub const REGISTER_BODY: &'static str = "event_types=%5B%22message%22%5D";

/// Whether the byte `b` is an ASCII letter or digit.
pub open spec fn is_alphanumeric(b: u8) -> bool {
    ||| 0x30 <= b <= 0x39
    ||| 0x41 <= b <= 0x5A
    ||| 0x61 <= b <= 0x7A
}

/// The hexadecimal digit of `n`, in upper case, for `n` from 0 to 15.
pub open spec fn hex_digit(n: u8) -> char
    recommends
        n < 16,
{
    if n < 10 {
        (n + 0x30) as char
    } else {
        (n + 0x37) as char
    }
}

/// What stands for the byte `b` in a percent-encoded text: the byte itself
/// where it is an ASCII letter or digit, and else a percent sign and its
/// two hexadecimal digits.
pub open spec fn percent_encoded_byte(b: u8) -> Seq<char> {
    if is_alphanumeric(b) {
        seq![b as char]
    } else {
        seq!['%', hex_digit(b / 16), hex_digit(b % 16)]
    }
}

/// What stands for `bytes` in a percent-encoded text.
pub open spec fn percent_encoded_bytes(bytes: Seq<u8>) -> Seq<char>
    decreases bytes.len(),
{
    if bytes.len() == 0 {
        seq![]
    } else {
        percent_encoded_bytes(bytes.drop_last()) + percent_encoded_byte(bytes.last())
    }
}

/// The percent-encoding of the UTF-8 form of `s`, which leaves only ASCII
/// letters and digits as they are.
pub open spec fn percent_encoded(s: Seq<char>) -> Seq<char> {
    percent_encoded_bytes(vstd::utf8::encode_utf8(s))
}

/// `percent_encoding::utf8_percent_encode` with the set `NON_ALPHANUMERIC`,
/// collected into a string: each byte of the UTF-8 form of `text` that is
/// an ASCII letter or digit stands for itself, and every other byte is
/// written as `%` and two upper-case hexadecimal digits.
#[verifier::external_body]
pub(crate) fn percent_encode(text: &str) -> (r: String)
    ensures
        r@ == percent_encoded(text@),
{
    percent_encoding::utf8_percent_encode(text, percent_encoding::NON_ALPHANUMERIC).to_string()
}

/// The address that posts a message to the topic `topic` of the channel
/// `channel_id`.
pub open spec fn channel_message_url(channel_id: u64, topic: Seq<char>, text: Seq<char>) -> Seq<
    char,
> {
    "https://rust-lang.zulipchat.com/api/v1/messages?type=stream&to=%5B"@ + decimal::decimal(
        channel_id as nat,
    ) + "%5D&subject="@ + percent_encoded(topic) + "&content="@ + percent_encoded(text)
}

/// The address that posts a direct message to the user `user_id`.
pub open spec fn direct_message_url(user_id: u64, text: Seq<char>) -> Seq<char> {
    "https://rust-lang.zulipchat.com/api/v1/messages?type=private&to=%5B"@ + decimal::decimal(
        user_id as nat,
    ) + "%5D&content="@ + percent_encoded(text)
}

/// The address of the comments of the issue `issue_number` of `repo`.
pub open spec fn issue_comments_url(repo: Seq<char>, issue_number: u64) -> Seq<char> {
    ISSUE_API@ + repo + "/issues/"@ + decimal::decimal(issue_number as nat) + "/comments"@
}

/// The position in the feed of a queue: the id of the last event that was
/// consumed, written `-1` where none was.
pub open spec fn cursor_text(last_event_id: Option<u64>) -> Seq<char> {
    match last_event_id {
        Some(id) => decimal::decimal(id as nat),
        None => "-1"@,
    }
}

/// The address that waits for the events of the queue `queue_id` after the
/// event `last_event_id`.
pub open spec fn events_url(queue_id: Seq<char>, last_event_id: Option<u64>) -> Seq<char> {
    "https://rust-lang.zulipchat.com/api/v1/events?queue_id="@ + percent_encoded(queue_id)
        + "&last_event_id="@ + cursor_text(last_event_id) + "&dont_block=false"@
}

/// The address that looks up the commit `sha` of the job repository.
pub open spec fn commit_url(sha: Seq<char>) -> Seq<char> {
    COMMIT_API@ + sha
}

/// The address that the request `request` is posted to: that of the blobs,
/// trees, commits or references of the store.
pub open spec fn store_url(request: Request) -> Seq<char> {
    STORE_API@ + match request {
        Request::CreateBlob { .. } => "blobs"@,
        Request::CreateTree { .. } => "trees"@,
        Request::CreateCommit { .. } => "commits"@,
        Request::UpdateRef { .. } => "refs"@,
    }
}

/// The address of the reference `name`, under which the store moves a
/// reference that exists.
pub open spec fn reference_url(name: Seq<char>) -> Seq<char> {
    STORE_API@ + name
}

/// One call that delivers a reply.
#[derive(Debug, Clone, PartialEq, Eq)]
pub enum Outbound {
    /// Post `text` as a comment to the address `url` of the issue tracker.
    IssueComment { url: String, text: String },
    /// Post to the address `url` of the chat service, which holds the
    /// message.
    ChatMessage { url: String },
}

/// The mathematical value of an `Outbound`.
pub enum Call {
    IssueComment { url: Seq<char>, text: Seq<char> },
    ChatMessage { url: Seq<char> },
}

impl View for Outbound {
    type V = Call;

    open spec fn view(&self) -> Call {
        match self {
            Outbound::IssueComment { url, text } => Call::IssueComment { url: url@, text: text@ },
            Outbound::ChatMessage { url } => Call::ChatMessage { url: url@ },
        }
    }
}

/// The one call that delivers `message`, chosen by the variant of its
/// destination alone.
pub open spec fn delivery_call(message: Message) -> Call {
    match message.to {
        Destination::IssueComment { repo, issue_number } => Call::IssueComment {
            url: issue_comments_url(repo, issue_number),
            text: message.text,
        },
        Destination::ChannelMessage { channel_id, topic } => Call::ChatMessage {
            url: channel_message_url(channel_id, topic, message.text),
        },
        Destination::DirectMessage { user_id } => Call::ChatMessage {
            url: direct_message_url(user_id, message.text),
        },
    }
}

/// The call that delivers `reply`.
pub fn delivery(reply: Reply) -> (r: Outbound)
    ensures
        r@ == delivery_call(reply@),
{
    let Reply { to, text } = reply;
    match to {
        ReplyTo::IssueComment { repo, issue_number } => {
            let mut url = String::from_str(ISSUE_API);
            url.append(repo.as_str());
            url.append("/issues/");
            decimal::push_decimal(&mut url, issue_number);
            url.append("/comments");
            Outbound::IssueComment { url, text }
        },
        ReplyTo::ChannelMessage { channel_id, topic } => {
            let mut url = String::from_str(
                "https://rust-lang.zulipchat.com/api/v1/messages?type=stream&to=%5B",
            );
            decimal::push_decimal(&mut url, channel_id);
            url.append("%5D&subject=");
            url.append(percent_encode(topic.as_str()).as_str());
            url.append("&content=");
            url.append(percent_encode(text.as_str()).as_str());
            Outbound::ChatMessage { url }
        },
        ReplyTo::DirectMessage { user_id } => {
            let mut url = String::from_str(
                "https://rust-lang.zulipchat.com/api/v1/messages?type=private&to=%5B",
            );
            decimal::push_decimal(&mut url, user_id);
            url.append("%5D&content=");
            url.append(percent_encode(text.as_str()).as_str());
            Outbound::ChatMessage { url }
        },
    }
}

/// The address that `request` is posted to.
pub fn store_address(request: &StoreRequest) -> (r: String)
    ensures
        r@ == store_url(request@),
{
    let mut url = String::from_str(STORE_API);
    match request {
        StoreRequest::CreateBlob { .. } => url.append("blobs"),
        StoreRequest::CreateTree { .. } => url.append("trees"),
        StoreRequest::CreateCommit { .. } => url.append("commits"),
        StoreRequest::UpdateRef { .. } => url.append("refs"),
    }
    url
}

/// Where to turn when the store has refused `request`. A reference that
/// cannot be made exists already: it is moved, under its own address. No
/// other request is tried again.
pub fn reference_retry(request: &StoreRequest) -> (r: Option<String>)
    ensures
        option_view(r) == (match request@ {
            Request::UpdateRef { name, .. } => Some(reference_url(name)),
            _ => None,
        }),
{
    match request {
        StoreRequest::UpdateRef { name, .. } => {
            let mut url = String::from_str(STORE_API);
            url.append(name.as_str());
            Some(url)
        },
        _ => None,
    }
}

/// The address that waits for the events of the queue `queue_id` after the
/// event `last_event_id`.
pub fn poll_url(queue_id: &str, last_event_id: Option<u64>) -> (r: String)
    ensures
        r@ == events_url(queue_id@, last_event_id),
{
    let mut url = String::from_str("https://rust-lang.zulipchat.com/api/v1/events?queue_id=");
    url.append(percent_encode(queue_id).as_str());
    url.append("&last_event_id=");
    match last_event_id {
        Some(id) => decimal::push_decimal(&mut url, id),
        None => url.append("-1"),
    }
    url.append("&dont_block=false");
    url
}

/// The address that looks up the commit `sha` of the job repository.
pub fn lookup_url(sha: &str) -> (r: String)
    ensures
        r@ == commit_url(sha@),
{
    let mut url = String::from_str(COMMIT_API);
    url.append(sha);
    url
}

} // verus!
